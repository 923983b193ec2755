//! JSON documents, read and written with `serde_json`.

use vstd::prelude::*;

verus! {

/// What a JSON value is. Numbers, objects, and lists come with their printed text.
pub enum JsonView {
    Null,
    Bool(bool),
    Text(Seq<char>),
    List(Seq<JsonView>, Seq<char>),
    Other(Seq<char>),
}

/// One JSON value that is not looked into further.
#[derive(Debug, PartialEq, Eq)]
pub enum JsonCell {
    Null,
    Bool(bool),
    Text(String),
    /// A number, an object, or a list.
    Other,
}

/// `serde_json::Value`, a parsed JSON value.
#[verifier::external_type_specification]
#[verifier::external_body]
pub struct ExJsonValue(serde_json::Value);

/// What a parsed JSON value holds.
pub uninterp spec fn json_view(v: serde_json::Value) -> JsonView;

/// The document that bytes hold, or the words for why they hold none.
pub uninterp spec fn json_document(bytes: Seq<u8>) -> Result<JsonView, Seq<char>>;

pub open spec fn json_views(values: Seq<serde_json::Value>) -> Seq<JsonView> {
    values.map_values(|v: serde_json::Value| json_view(v))
}

/// Calls `serde_json::from_slice`. The contract names the outcome, which depends on the bytes alone:
/// the document, or the text of the error.
#[verifier::external_body]
pub(crate) fn parse_json(bytes: &Vec<u8>) -> (r: Result<serde_json::Value, String>)
    ensures
        match r {
            Ok(v) => json_document(bytes@) == Ok::<JsonView, Seq<char>>(json_view(v)),
            Err(e) => json_document(bytes@) == Err::<JsonView, Seq<char>>(e@),
        },
{
    serde_json::from_slice(bytes.as_slice()).map_err(|e| e.to_string())
}

/// Calls `serde_json::Value::as_array`: the items of a list, and nothing for any other value.
#[verifier::external_body]
pub(crate) fn json_items(v: &serde_json::Value) -> (r: Option<&Vec<serde_json::Value>>)
    ensures
        match r {
            Some(items) => json_view(*v) matches JsonView::List(views, _) && views == json_views(
                items@,
            ),
            None => !(json_view(*v) is List),
        },
{
    v.as_array()
}

/// Tells the variants of `serde_json::Value` apart and copies the string of a string value.
#[verifier::external_body]
pub(crate) fn json_cell(v: &serde_json::Value) -> (r: JsonCell)
    ensures
        match r {
            JsonCell::Null => json_view(*v) is Null,
            JsonCell::Bool(b) => json_view(*v) == JsonView::Bool(b),
            JsonCell::Text(s) => json_view(*v) == JsonView::Text(s@),
            JsonCell::Other => json_view(*v) is Other || json_view(*v) is List,
        },
{
    match v {
        serde_json::Value::Null => JsonCell::Null,
        serde_json::Value::Bool(b) => JsonCell::Bool(*b),
        serde_json::Value::String(s) => JsonCell::Text(s.clone()),
        serde_json::Value::Number(_) => JsonCell::Other,
        serde_json::Value::Array(_) => JsonCell::Other,
        serde_json::Value::Object(_) => JsonCell::Other,
    }
}

/// Calls `to_string` of `serde_json::Value`: the printed text of a number, an object, or a list.
#[verifier::external_body]
pub(crate) fn json_text(v: &serde_json::Value) -> (r: String)
    requires
        json_view(*v) is Other || json_view(*v) is List,
    ensures
        json_view(*v) matches JsonView::Other(text) ==> r@ == text,
        json_view(*v) matches JsonView::List(_, text) ==> r@ == text,
{
    v.to_string()
}

/// The document is a list with one item for each row.
pub open spec fn holds_rows(document: JsonView, rows: Seq<Seq<Seq<char>>>) -> bool {
    document matches JsonView::List(items, _) && items.len() == rows.len() && forall|i: int|
        0 <= i < rows.len() ==> holds_cells(#[trigger] items[i], rows[i])
}

/// The value is a list of exactly these strings.
pub open spec fn holds_cells(row: JsonView, cells: Seq<Seq<char>>) -> bool {
    row matches JsonView::List(items, _) && items.len() == cells.len() && forall|i: int|
        0 <= i < cells.len() ==> #[trigger] items[i] == JsonView::Text(cells[i])
}

/// The texts of rows of strings.
pub open spec fn row_texts(rows: Seq<Vec<String>>) -> Seq<Seq<Seq<char>>> {
    rows.map_values(|row: Vec<String>| crate::text::texts(row@))
}

/// The indented text of a document that is a list of lists of strings.
pub uninterp spec fn pretty_rows(rows: Seq<Seq<Seq<char>>>) -> Seq<u8>;

/// Calls `serde_json::to_vec_pretty` on rows of strings, which it never refuses. The contract names the
/// bytes, which depend on the strings alone. Reading them back, with a line break at their end, gives a
/// list of lists of the same strings.
#[verifier::external_body]
pub(crate) fn write_json_rows(rows: &Vec<Vec<String>>) -> (r: Result<Vec<u8>, String>)
    ensures
        r is Ok,
        r matches Ok(bytes) ==> bytes@ == pretty_rows(row_texts(rows@)),
        r matches Ok(bytes) ==> (json_document(bytes@.push(10u8)) matches Ok(document)
            && holds_rows(document, row_texts(rows@))),
{
    serde_json::to_vec_pretty(rows).map_err(|e| e.to_string())
}

} // verus!
