//! The TOML document calls this library relies on.
//!
//! A document is kept as toml_edit holds it, so that writing it back keeps
//! every byte that was not changed. What the logic reads of it is named by
//! the spec functions below, each stated by the wrapper that reads it.

use toml_edit::{DocumentMut, Item, TomlError};
use vstd::prelude::*;

verus! {

#[verifier::external_type_specification]
#[verifier::external_body]
pub struct ExDocumentMut(DocumentMut);

#[verifier::external_type_specification]
#[verifier::external_body]
pub struct ExTomlError(TomlError);

/// The document that a text parses to, if it is well-formed TOML.
pub uninterp spec fn toml_document(text: Seq<char>) -> Option<DocumentMut>;

/// Whether the top level of a document holds `key`.
pub uninterp spec fn top_key(d: DocumentMut, key: Seq<char>) -> bool;

/// Whether `package` is a table or an inline table.
pub uninterp spec fn package_table(d: DocumentMut) -> bool;

/// The string stored under `package.<key>`, if there is one.
pub uninterp spec fn package_field(d: DocumentMut, key: Seq<char>) -> Option<Seq<char>>;

/// The entries of `workspace.members`, each a string or not; empty where
/// there is no such array.
pub uninterp spec fn member_entries(d: DocumentMut) -> Seq<Option<Seq<char>>>;

/// The text a document writes out as.
pub uninterp spec fn toml_text(d: DocumentMut) -> Seq<char>;

/// Relies on `DocumentMut::from_str`: parses TOML text, keeping its layout;
/// the outcome depends on the text alone.
#[verifier::external_body]
pub(crate) fn parse_toml(text: &str) -> (r: Result<DocumentMut, TomlError>)
    ensures
        match r {
            Ok(d) => toml_document(text@) == Some(d),
            Err(_) => toml_document(text@) is None,
        },
{
    text.parse::<DocumentMut>()
}

/// Relies on `Table::contains_key` (through `DocumentMut`'s `Deref`).
#[verifier::external_body]
pub(crate) fn has_top_key(doc: &DocumentMut, key: &str) -> (r: bool)
    ensures
        r == top_key(*doc, key@),
{
    doc.contains_key(key)
}

/// Relies on `Table::get` and `Item::is_table_like`: whether `package` is a
/// table or an inline table.
#[verifier::external_body]
pub(crate) fn package_is_table(doc: &DocumentMut) -> (r: bool)
    ensures
        r == package_table(*doc),
{
    doc.get("package").map_or(false, Item::is_table_like)
}

/// Relies on `Table::get`, `Item::get` and `Item::as_str`: the string under
/// `package.<key>`. None of them panics.
#[verifier::external_body]
pub(crate) fn package_string(doc: &DocumentMut, key: &str) -> (r: Option<String>)
    ensures
        r.deep_view() == package_field(*doc, key@),
{
    doc.get("package").and_then(|p| p.get(key)).and_then(Item::as_str).map(String::from)
}

/// Relies on the `IndexMut` impls of `DocumentMut` and `Item`, with
/// `toml_edit::value`: stores a string as `package.version`, leaving every
/// other entry in place. Indexing panics unless `package` is a table or an
/// inline table.
#[verifier::external_body]
pub(crate) fn set_package_version(doc: &mut DocumentMut, v: &str)
    requires
        package_table(*old(doc)),
    ensures
        package_table(*final(doc)),
        package_field(*final(doc), seq!['v', 'e', 'r', 's', 'i', 'o', 'n']) == Some(v@),
        forall|k: Seq<char>|
            k != seq!['v', 'e', 'r', 's', 'i', 'o', 'n'] ==> #[trigger] package_field(*final(doc), k)
                == package_field(*old(doc), k),
        member_entries(*final(doc)) == member_entries(*old(doc)),
        forall|k: Seq<char>| #[trigger] top_key(*final(doc), k) == top_key(*old(doc), k),
{
    doc["package"]["version"] = toml_edit::value(v);
}

/// Relies on `Table::get`, `Item::get`, `Item::as_array`, `Array::iter` and
/// `Value::as_str`: the entries of `workspace.members`.
#[verifier::external_body]
pub(crate) fn workspace_member_entries(doc: &DocumentMut) -> (r: Vec<Option<String>>)
    ensures
        r.deep_view() == member_entries(*doc),
{
    match doc.get("workspace").and_then(|w| w.get("members")).and_then(Item::as_array) {
        Some(a) => a.iter().map(|v| v.as_str().map(String::from)).collect(),
        None => Vec::new(),
    }
}

/// Relies on `DocumentMut`'s `Display`: the document's text, with the layout
/// it was read with.
#[verifier::external_body]
pub(crate) fn render_toml(doc: &DocumentMut) -> (r: String)
    ensures
        r@ == toml_text(*doc),
{
    doc.to_string()
}

} // verus!
