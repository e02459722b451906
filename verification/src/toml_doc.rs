use vstd::prelude::*;
use toml_edit::{InlineTable, Item, Value};
use crate::encode::DepTable;

verus! {

#[verifier::external_type_specification]
#[verifier::external_body]
pub struct ExDocumentMut(toml_edit::DocumentMut);

/// Whether a text is a syntactically valid manifest document.
pub uninterp spec fn toml_parses(text: Seq<char>) -> bool;

/// The text that parsing a valid document and serializing it again yields.
/// toml_edit preserves formatting, but not everything: a missing trailing
/// newline is added back, and interleaved dotted keys are grouped, so this is
/// the input text up to those normalizations, not always the input itself.
pub uninterp spec fn toml_canonical(text: Seq<char>) -> Seq<char>;

/// The text that serializing a document yields.
pub uninterp spec fn doc_text(d: toml_edit::DocumentMut) -> Seq<char>;

/// Whether the dotted key path leads, segment by segment through standard
/// tables, to a table of the document.
pub uninterp spec fn doc_has_table_path(d: toml_edit::DocumentMut, path: Seq<Seq<char>>) -> bool;

/// The whole document's text after the entry `dep` of the table at `path` is
/// replaced by the bare version string `version`.
pub uninterp spec fn plain_patched_text(
    d: toml_edit::DocumentMut,
    path: Seq<Seq<char>>,
    dep: Seq<char>,
    version: Seq<char>,
) -> Seq<char>;

/// The whole document's text after the entry `dep` of the table at `path` is
/// replaced by an inline table holding, in this order, exactly the present
/// entries among `path`, `version`, `features` and `default-features`.
pub uninterp spec fn table_patched_text(
    d: toml_edit::DocumentMut,
    path: Seq<Seq<char>>,
    dep: Seq<char>,
    loc_path: Option<Seq<char>>,
    version: Option<Seq<char>>,
    features: Option<Seq<Seq<char>>>,
    default_features: Option<bool>,
) -> Seq<char>;

/// Relies on toml_edit's `DocumentMut::from_str`: it accepts exactly the
/// syntactically valid documents, and both parsing and serializing are
/// deterministic, so the parsed tree serializes to a text that is a function
/// of the input alone — `toml_canonical`, the input up to toml_edit's few
/// documented normalizations.
#[verifier::external_body]
pub(crate) fn parse_document(text: &str) -> (r: Option<toml_edit::DocumentMut>)
    ensures
        (r is Some) == toml_parses(text@),
        r matches Some(d) ==> doc_text(d) == toml_canonical(text@),
{
    text.parse::<toml_edit::DocumentMut>().ok()
}

/// Relies on toml_edit's `Table::get_mut` (a plain lookup that never inserts),
/// `Item::as_table_mut`, `Table::insert` and the `Display` of `DocumentMut`:
/// walks the dotted section path, replaces the entry under `dep_name` with
/// the bare version string, and serializes the whole document. Fails, leaving
/// the document untouched, exactly when the path does not lead through tables
/// to a table. On success the walked tables are still there, and replacing
/// the entry once more with the same value changes nothing: `Table::insert`
/// on a present key replaces the value and resets the key's formatting, and
/// both are already in exactly that state after the first replacement.
#[verifier::external_body]
pub(crate) fn patch_dep_plain(
    doc: &mut toml_edit::DocumentMut,
    parts: &Vec<String>,
    dep_name: &str,
    version: &str,
) -> (r: Option<String>)
    ensures
        (r is Some) == doc_has_table_path(*old(doc), parts.deep_view()),
        r is None ==> *final(doc) == *old(doc),
        r matches Some(text) ==> text@ == plain_patched_text(
            *old(doc),
            parts.deep_view(),
            dep_name@,
            version@,
        ),
        r matches Some(text) ==> doc_text(*final(doc)) == text@,
        r is Some ==> doc_has_table_path(*final(doc), parts.deep_view()),
        r matches Some(text) ==> plain_patched_text(
            *final(doc),
            parts.deep_view(),
            dep_name@,
            version@,
        ) == text@,
{
    let mut tb = doc.as_table_mut();
    for p in parts {
        tb = tb.get_mut(p.as_str())?.as_table_mut()?;
    }
    tb.insert(dep_name, Item::Value(version.into()));
    Some(doc.to_string())
}

/// Relies on toml_edit's `Table::get_mut` (a plain lookup that never inserts),
/// `Item::as_table_mut`, `Table::insert`, `InlineTable::insert` and the
/// `Display` of `DocumentMut`: walks the dotted section path, replaces the
/// entry under `dep_name` with an inline table holding the given entries in
/// the order `path`, `version`, `features`, `default-features`, and
/// serializes the whole document. Fails, leaving the document untouched,
/// exactly when the path does not lead through tables to a table. On success
/// the walked tables are still there, and replacing the entry once more with
/// the same value changes nothing, as for `patch_dep_plain`.
#[verifier::external_body]
pub(crate) fn patch_dep_table(
    doc: &mut toml_edit::DocumentMut,
    parts: &Vec<String>,
    dep_name: &str,
    t: &DepTable,
) -> (r: Option<String>)
    ensures
        (r is Some) == doc_has_table_path(*old(doc), parts.deep_view()),
        r is None ==> *final(doc) == *old(doc),
        r matches Some(text) ==> text@ == table_patched_text(
            *old(doc),
            parts.deep_view(),
            dep_name@,
            t.loc_path.deep_view(),
            t.version.deep_view(),
            t.features.deep_view(),
            t.default_features,
        ),
        r matches Some(text) ==> doc_text(*final(doc)) == text@,
        r is Some ==> doc_has_table_path(*final(doc), parts.deep_view()),
        r matches Some(text) ==> table_patched_text(
            *final(doc),
            parts.deep_view(),
            dep_name@,
            t.loc_path.deep_view(),
            t.version.deep_view(),
            t.features.deep_view(),
            t.default_features,
        ) == text@,
{
    let mut tb = doc.as_table_mut();
    for p in parts { tb = tb.get_mut(p.as_str())?.as_table_mut()?; }
    let mut t2 = InlineTable::new();
    if let Some(x) = &t.loc_path { t2.insert("path", x.as_str().into()); }
    if let Some(x) = &t.version { t2.insert("version", x.as_str().into()); }
    if let Some(x) = &t.features { t2.insert("features", x.iter().map(String::as_str).collect::<toml_edit::Array>().into()); }
    if let Some(x) = t.default_features { t2.insert("default-features", x.into()); }
    tb.insert(dep_name, Item::Value(t2.into()));
    Some(doc.to_string())
}

} // verus!
