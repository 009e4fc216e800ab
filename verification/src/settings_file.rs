//! The settings file as a TOML document: parsing it, replacing one entry of
//! one of its tables, and rendering it back to text, with the `toml` crate's
//! maps and values. Documents are seen as plain values (`TomlItem`), so that
//! what the crate's parser and renderer give can be named as functions of
//! plain values.
use vstd::prelude::*;

verus! {

#[verifier::external_type_specification]
#[verifier::external_body]
#[verifier::reject_recursive_types(K)]
#[verifier::reject_recursive_types(V)]
pub struct ExTomlMap<K, V>(toml::map::Map<K, V>);

#[verifier::external_type_specification]
#[verifier::external_body]
pub struct ExTomlValue(toml::Value);

#[verifier::external_type_specification]
#[verifier::external_body]
pub struct ExTomlParseError(toml::de::Error);

#[verifier::external_type_specification]
#[verifier::external_body]
pub struct ExTomlRenderError(toml::ser::Error);

/// A TOML value as a plain value: a string, an integer, a float (by its bit
/// pattern), a boolean, a date-time (by the text it prints as), an array,
/// or a table of values by key.
pub enum TomlItem {
    Text(Seq<char>),
    Integer(int),
    Float(u64),
    Boolean(bool),
    Datetime(Seq<char>),
    Array(Seq<TomlItem>),
    Table(Map<Seq<char>, TomlItem>),
}

/// What a parsed document holds: its top-level entries, each value as a
/// `TomlItem` (`Value::String` as `Text`, `Value::Integer` as `Integer`,
/// `Value::Float` as `Float` of `f64::to_bits`, `Value::Boolean` as
/// `Boolean`, `Value::Datetime` as `Datetime` of its `Display` text,
/// `Value::Array` as `Array`, `Value::Table` as `Table`).
pub uninterp spec fn toml_document(doc: toml::map::Map<String, toml::Value>) -> Map<
    Seq<char>,
    TomlItem,
>;

/// What parsing `text` as a TOML document gives: `None` when `text` is not
/// a TOML document, otherwise the document's entries.
pub uninterp spec fn toml_parse(text: Seq<char>) -> Option<Map<Seq<char>, TomlItem>>;

/// The text that `toml::to_string` gives for a document with the entries
/// `doc` (`None` when it reports an error). The crate is built without its
/// `preserve_order` feature, so a table keeps its entries sorted by key and
/// the text depends on the entries alone.
pub uninterp spec fn toml_render(doc: Map<Seq<char>, TomlItem>) -> Option<Seq<char>>;

/// What a value holds, as a `TomlItem`, each kind of value converted as
/// for `toml_document`.
pub uninterp spec fn toml_value(v: toml::Value) -> TomlItem;

/// The entries of the table `table` of a document; none when the document
/// has no entry `table` or that entry is not a table.
pub open spec fn table_entries(doc: Map<Seq<char>, TomlItem>, table: Seq<char>) -> Map<
    Seq<char>,
    TomlItem,
> {
    if doc.dom().contains(table) {
        match doc[table] {
            TomlItem::Table(t) => t,
            _ => Map::empty(),
        }
    } else {
        Map::empty()
    }
}

/// Whether the table `table` of the document holds `key`.
pub open spec fn has_entry(doc: Map<Seq<char>, TomlItem>, table: Seq<char>, key: Seq<char>) -> bool {
    table_entries(doc, table).dom().contains(key)
}

/// The document with the entry `key` of its table `table` replaced by
/// `item`; the document as it was when that table lacks `key`.
pub open spec fn with_entry(
    doc: Map<Seq<char>, TomlItem>,
    table: Seq<char>,
    key: Seq<char>,
    item: TomlItem,
) -> Map<Seq<char>, TomlItem> {
    if has_entry(doc, table, key) {
        doc.insert(table, TomlItem::Table(table_entries(doc, table).insert(key, item)))
    } else {
        doc
    }
}

/// The entries of a document's `user-settings` table; none when the
/// document has no such table.
pub open spec fn user_settings(doc: Map<Seq<char>, TomlItem>) -> Map<Seq<char>, TomlItem> {
    table_entries(doc, "user-settings"@)
}

/// Whether the document's `user-settings` table holds `key`.
pub open spec fn has_setting(doc: Map<Seq<char>, TomlItem>, key: Seq<char>) -> bool {
    has_entry(doc, "user-settings"@, key)
}

/// The document with the entry `key` of its `user-settings` table replaced
/// by `item`; the document as it was when the table lacks `key`.
pub open spec fn with_setting(doc: Map<Seq<char>, TomlItem>, key: Seq<char>, item: TomlItem) -> Map<
    Seq<char>,
    TomlItem,
> {
    with_entry(doc, "user-settings"@, key, item)
}

/// An array of strings.
pub open spec fn string_list(v: Seq<Seq<char>>) -> TomlItem {
    TomlItem::Array(v.map_values(|s: Seq<char>| TomlItem::Text(s)))
}

/// `str::parse::<toml::Table>` (toml's `FromStr for Table`, which calls
/// `toml::from_str`). The contract claims that it fails exactly when
/// `toml_parse` says the text is no document, and that it gives the
/// document that name holds.
#[verifier::external_body]
pub(crate) fn parse_document(text: &str) -> (r: Result<toml::map::Map<String, toml::Value>, toml::de::Error>)
    ensures
        r is Err <==> toml_parse(text@) is None,
        r matches Ok(doc) ==> toml_parse(text@) == Some(toml_document(doc)),
{
    text.parse::<toml::Table>()
}

/// `Map::remove`. The contract claims that the entry `key` leaves the
/// document, and that its value is returned exactly when it was there.
#[verifier::external_body]
fn remove_entry(doc: &mut toml::map::Map<String, toml::Value>, key: &str) -> (r: Option<toml::Value>)
    ensures
        r is Some <==> toml_document(*old(doc)).dom().contains(key@),
        r matches Some(v) ==> toml_value(v) == toml_document(*old(doc))[key@],
        toml_document(*final(doc)) == toml_document(*old(doc)).remove(key@),
{
    doc.remove(key)
}

/// `Map::insert`. The contract claims that the document then maps `key` to
/// the value, its other entries kept.
#[verifier::external_body]
fn insert_entry(doc: &mut toml::map::Map<String, toml::Value>, key: String, value: toml::Value)
    ensures
        toml_document(*final(doc)) == toml_document(*old(doc)).insert(key@, toml_value(value)),
{
    doc.insert(key, value);
}

/// `Map::contains_key`. The contract claims that it says whether the
/// document has the entry `key`.
#[verifier::external_body]
fn contains_entry(doc: &toml::map::Map<String, toml::Value>, key: &str) -> (r: bool)
    ensures
        r == toml_document(*doc).dom().contains(key@),
{
    doc.contains_key(key)
}

/// The table inside a `Value::Table`; any other kind of value is handed
/// back. The contract claims that a table comes out exactly when the value
/// holds one, with the entries it holds.
#[verifier::external_body]
fn into_table(value: toml::Value) -> (r: Result<toml::map::Map<String, toml::Value>, toml::Value>)
    ensures
        r is Ok <==> toml_value(value) is Table,
        r matches Ok(t) ==> toml_value(value) == TomlItem::Table(toml_document(t)),
        r matches Err(v) ==> v == value,
{
    match value {
        toml::Value::Table(t) => Ok(t),
        other => Err(other),
    }
}

/// `Value::from(Table)`. The contract claims that the value holds the
/// table's entries.
#[verifier::external_body]
fn table_value(table: toml::map::Map<String, toml::Value>) -> (r: toml::Value)
    ensures
        toml_value(r) == TomlItem::Table(toml_document(table)),
{
    toml::Value::from(table)
}

/// `Value::from(String)`. The contract claims that the value is the string.
#[verifier::external_body]
fn text_value(text: String) -> (r: toml::Value)
    ensures
        toml_value(r) == TomlItem::Text(text@),
{
    toml::Value::from(text)
}

/// `Value::from(Vec<String>)`. The contract claims that the value is an
/// array of the strings, in order.
#[verifier::external_body]
fn list_value(list: Vec<String>) -> (r: toml::Value)
    ensures
        toml_value(r) == string_list(list@.map_values(|s: String| s@)),
{
    toml::Value::from(list)
}

/// Replaces the entry `key` of the table `table` of the document by `item`,
/// when the document has that table and the table has that entry; returns
/// whether it did. Any other document is left as it was.
pub(crate) fn set_entry(
    doc: &mut toml::map::Map<String, toml::Value>,
    table: &str,
    key: &str,
    item: toml::Value,
) -> (present: bool)
    ensures
        present == has_entry(toml_document(*old(doc)), table@, key@),
        toml_document(*final(doc)) == with_entry(
            toml_document(*old(doc)),
            table@,
            key@,
            toml_value(item),
        ),
{
    let ghost d0 = toml_document(*doc);
    match remove_entry(doc, table) {
        None => {
            assert(d0.remove(table@) =~= d0);
            false
        },
        Some(v) => match into_table(v) {
            Err(v) => {
                insert_entry(doc, table.to_owned(), v);
                assert(d0.remove(table@).insert(table@, d0[table@]) =~= d0);
                false
            },
            Ok(mut t) => {
                let ghost t0 = toml_document(t);
                let present = contains_entry(&t, key);
                if present {
                    insert_entry(&mut t, key.to_owned(), item);
                }
                insert_entry(doc, table.to_owned(), table_value(t));
                proof {
                    if !present {
                        assert(toml_document(t) == t0);
                        assert(d0.remove(table@).insert(table@, TomlItem::Table(t0)) =~= d0);
                    } else {
                        assert(d0.remove(table@).insert(
                            table@,
                            TomlItem::Table(t0.insert(key@, toml_value(item))),
                        ) =~= d0.insert(table@, TomlItem::Table(t0.insert(key@, toml_value(item)))));
                    }
                }
                present
            },
        },
    }
}

/// Sets the entry `key` of the table `table` to the string `value`, as
/// `set_entry` does.
pub(crate) fn set_text_entry(
    doc: &mut toml::map::Map<String, toml::Value>,
    table: &str,
    key: &str,
    value: &String,
) -> (present: bool)
    ensures
        present == has_entry(toml_document(*old(doc)), table@, key@),
        toml_document(*final(doc)) == with_entry(
            toml_document(*old(doc)),
            table@,
            key@,
            TomlItem::Text(value@),
        ),
{
    set_entry(doc, table, key, text_value(value.clone()))
}

/// Sets the entry `key` of the table `table` to an array of the strings in
/// `value`, in order, as `set_entry` does.
pub(crate) fn set_list_entry(
    doc: &mut toml::map::Map<String, toml::Value>,
    table: &str,
    key: &str,
    value: &Vec<String>,
) -> (present: bool)
    ensures
        present == has_entry(toml_document(*old(doc)), table@, key@),
        toml_document(*final(doc)) == with_entry(
            toml_document(*old(doc)),
            table@,
            key@,
            string_list(value@.map_values(|s: String| s@)),
        ),
{
    set_entry(doc, table, key, list_value(value.clone()))
}

/// `toml::to_string` on the document (what its `Display` prints). The
/// contract claims that it succeeds exactly when `toml_render` of the
/// document's entries is some text, and that it gives that text.
#[verifier::external_body]
pub(crate) fn render_document(doc: &toml::map::Map<String, toml::Value>) -> (r: Result<String, toml::ser::Error>)
    ensures
        r is Ok <==> toml_render(toml_document(*doc)) is Some,
        r matches Ok(t) ==> toml_render(toml_document(*doc)) == Some(t@),
{
    toml::to_string(doc)
}

/// Replacing an entry of the `user-settings` table keeps every other entry
/// of the document and of that table, and the table holds the new entry.
pub proof fn lemma_with_setting_keeps_others(doc: Map<Seq<char>, TomlItem>, key: Seq<char>, item: TomlItem)
    requires
        has_setting(doc, key),
    ensures
        with_setting(doc, key, item).dom() == doc.dom(),
        forall|k: Seq<char>|
            k != "user-settings"@ && doc.dom().contains(k) ==> #[trigger] with_setting(
                doc,
                key,
                item,
            )[k] == doc[k],
        user_settings(with_setting(doc, key, item)).dom() == user_settings(doc).dom(),
        forall|g: Seq<char>|
            g != key && user_settings(doc).dom().contains(g) ==> #[trigger] user_settings(
                with_setting(doc, key, item),
            )[g] == user_settings(doc)[g],
        user_settings(with_setting(doc, key, item))[key] == item,
{
    let out = with_setting(doc, key, item);
    assert(doc.dom().contains("user-settings"@));
    assert(out.dom() =~= doc.dom());
    assert(user_settings(out) == user_settings(doc).insert(key, item));
    assert(user_settings(out).dom() =~= user_settings(doc).dom());
}

} // verus!
