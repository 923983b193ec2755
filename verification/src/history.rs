//! The history of completed conversions.

use crate::json::{
    holds_cells, holds_rows, json_cell, json_document, json_items, json_text, json_view, json_views,
    parse_json, pretty_rows, row_texts, write_json_rows, JsonCell, JsonView,
};
use crate::text::{copy_list, list_contains, same_text, texts};
use vstd::prelude::*;

verus! {

/// One completed conversion, as 19 columns of text.
#[derive(Debug, PartialEq, Eq)]
pub struct CompletedHistoryRow {
    columns: Vec<String>,
}

impl View for CompletedHistoryRow {
    type V = Seq<Seq<char>>;

    closed spec fn view(&self) -> Seq<Seq<char>> {
        texts(self.columns@)
    }
}

/// A value that a column really holds: neither empty nor one of the two placeholders.
pub open spec fn history_value(value: Seq<char>) -> Option<Seq<char>> {
    if value.len() == 0 || value == "-"@ || value == "None"@ {
        None
    } else {
        Some(value)
    }
}

/// Rows with equal keys are the same conversion.
pub open spec fn row_key(row: Seq<Seq<char>>) -> Seq<char> {
    row[0] + "|"@ + row[2] + "|"@ + row[3]
}

fn known_value(value: &String) -> (r: Option<&str>)
    ensures
        match r {
            Some(v) => history_value(value@) == Some(v@),
            None => history_value(value@) is None,
        },
{
    let text = value.as_str();
    if text.unicode_len() == 0 || same_text(text, "-") || same_text(text, "None") {
        None
    } else {
        Some(text)
    }
}

impl CompletedHistoryRow {
    #[verifier::type_invariant]
    spec fn has_all_columns(self) -> bool {
        self.columns@.len() == 19
    }

    pub fn new(columns: [String; 19]) -> (r: Self)
        ensures
            r@ == texts(columns@),
    {
        let mut list: Vec<String> = Vec::new();
        let mut i: usize = 0;
        while i < 19
            invariant
                i <= 19,
                list@ == columns@.take(i as int),
                columns@.len() == 19,
            decreases 19 - i,
        {
            list.push(columns[i].clone());
            i = i + 1;
        }
        assert(list@ =~= columns@);
        CompletedHistoryRow { columns: list }
    }

    pub fn columns(&self) -> (r: &Vec<String>)
        ensures
            texts(r@) == self@,
            r@.len() == 19,
            self@.len() == 19,
    {
        proof {
            use_type_invariant(self);
        }
        &self.columns
    }

    /// The columns that are shown.
    pub fn display_columns(&self) -> (r: Vec<String>)
        ensures
            texts(r@) == self@.take(14),
            r@.len() == 14,
    {
        proof {
            use_type_invariant(self);
        }
        let mut r = copy_list(&self.columns);
        r.truncate(14);
        assert(texts(r@) =~= self@.take(14));
        r
    }

    pub fn task_id(&self) -> (r: Option<&str>)
        ensures
            match r {
                Some(v) => history_value(self@[14]) == Some(v@),
                None => history_value(self@[14]) is None,
            },
    {
        proof {
            use_type_invariant(self);
        }
        known_value(&self.columns[14])
    }

    pub fn input_path(&self) -> (r: Option<&str>)
        ensures
            match r {
                Some(v) => history_value(self@[15]) == Some(v@),
                None => history_value(self@[15]) is None,
            },
    {
        proof {
            use_type_invariant(self);
        }
        known_value(&self.columns[15])
    }

    pub fn original_codec(&self) -> (r: Option<&str>)
        ensures
            match r {
                Some(v) => history_value(self@[16]) == Some(v@),
                None => history_value(self@[16]) is None,
            },
    {
        proof {
            use_type_invariant(self);
        }
        known_value(&self.columns[16])
    }

    pub fn converted_codec(&self) -> (r: Option<&str>)
        ensures
            match r {
                Some(v) => history_value(self@[17]) == Some(v@),
                None => history_value(self@[17]) is None,
            },
    {
        proof {
            use_type_invariant(self);
        }
        known_value(&self.columns[17])
    }

    pub fn duration(&self) -> (r: Option<&str>)
        ensures
            match r {
                Some(v) => history_value(self@[18]) == Some(v@),
                None => history_value(self@[18]) is None,
            },
    {
        proof {
            use_type_invariant(self);
        }
        known_value(&self.columns[18])
    }

    fn key(&self) -> (r: String)
        ensures
            r@ == row_key(self@),
    {
        proof {
            use_type_invariant(self);
        }
        let mut r = self.columns[0].clone();
        r.append("|");
        r.append(self.columns[2].as_str());
        r.append("|");
        r.append(self.columns[3].as_str());
        r
    }
}

impl Clone for CompletedHistoryRow {
    fn clone(&self) -> (r: Self)
        ensures
            r@ == self@,
    {
        proof {
            use_type_invariant(self);
        }
        CompletedHistoryRow { columns: copy_list(&self.columns) }
    }
}

/// The contents of a list of rows.
pub open spec fn row_views(rows: Seq<CompletedHistoryRow>) -> Seq<Seq<Seq<char>>> {
    rows.map_values(|r: CompletedHistoryRow| r@)
}

/// The column that a JSON value becomes.
pub open spec fn column_text(v: JsonView) -> Seq<char> {
    match v {
        JsonView::Null => "None"@,
        JsonView::Bool(b) => if b {
            "True"@
        } else {
            "False"@
        },
        JsonView::Text(s) => s,
        JsonView::List(_, printed) => printed,
        JsonView::Other(printed) => printed,
    }
}

pub open spec fn column_texts(values: Seq<JsonView>) -> Seq<Seq<char>> {
    values.map_values(|v: JsonView| column_text(v))
}

pub open spec fn placeholders(n: nat) -> Seq<Seq<char>> {
    Seq::new(n, |i: int| "-"@)
}

/// A row of any known width, brought to 19 columns by putting a placeholder into each column that
/// rows of that width lack. A row of another width is no row.
pub open spec fn normalized_row(row: Seq<Seq<char>>) -> Option<Seq<Seq<char>>> {
    let dash = "-"@;
    if row.len() == 19 {
        Some(row)
    } else if row.len() == 14 {
        Some(row + placeholders(5))
    } else if row.len() == 11 {
        Some(row + placeholders(8))
    } else if row.len() == 10 {
        Some(row.insert(2, dash) + placeholders(8))
    } else if row.len() == 9 {
        Some(row.insert(2, dash).insert(8, dash) + placeholders(8))
    } else if row.len() == 8 {
        Some(row.insert(1, dash).insert(2, dash).insert(8, dash) + placeholders(8))
    } else {
        None
    }
}

/// The row that one item of a history document holds.
pub open spec fn document_row() -> spec_fn(JsonView) -> Option<Seq<Seq<char>>> {
    |v: JsonView|
        match v {
            JsonView::List(cells, _) => normalized_row(column_texts(cells)),
            _ => None,
        }
}

/// The rows of a history document; a document that is not a list holds none.
pub open spec fn document_rows(document: JsonView) -> Seq<Seq<Seq<char>>> {
    match document {
        JsonView::List(items, _) => items.filter_map(document_row()),
        _ => Seq::empty(),
    }
}

fn column_of(v: &serde_json::Value) -> (r: String)
    ensures
        r@ == column_text(json_view(*v)),
{
    match json_cell(v) {
        JsonCell::Null => "None".to_owned(),
        JsonCell::Bool(b) => if b {
            "True".to_owned()
        } else {
            "False".to_owned()
        },
        JsonCell::Text(s) => s,
        JsonCell::Other => json_text(v),
    }
}

fn push_placeholders(row: &mut Vec<String>, count: usize)
    requires
        old(row)@.len() + count <= 19,
    ensures
        texts(final(row)@) == texts(old(row)@) + placeholders(count as nat),
{
    let mut i: usize = 0;
    assert(texts(row@) =~= texts(old(row)@) + placeholders(0));
    while i < count
        invariant
            i <= count,
            texts(row@) == texts(old(row)@) + placeholders(i as nat),
        decreases count - i,
    {
        let ghost before = texts(row@);
        row.push("-".to_owned());
        i = i + 1;
        assert(texts(row@) =~= before.push("-"@));
        assert(texts(row@) =~= texts(old(row)@) + placeholders(i as nat));
    }
}

fn insert_placeholder(row: &mut Vec<String>, at: usize)
    requires
        at <= old(row)@.len() < 19,
    ensures
        texts(final(row)@) == texts(old(row)@).insert(at as int, "-"@),
{
    row.insert(at, "-".to_owned());
    assert(texts(row@) =~= texts(old(row)@).insert(at as int, "-"@));
}

/// Brings a row of any known width to 19 columns.
fn normalize_columns(row: Vec<String>) -> (r: Option<CompletedHistoryRow>)
    ensures
        match r {
            Some(full) => normalized_row(texts(row@)) == Some(full@),
            None => normalized_row(texts(row@)) is None,
        },
{
    let mut row = row;
    let width: usize = row.len();
    if width == 19 {
    } else if width == 14 {
        push_placeholders(&mut row, 5);
    } else if width == 11 {
        push_placeholders(&mut row, 8);
    } else if width == 10 {
        insert_placeholder(&mut row, 2);
        push_placeholders(&mut row, 8);
    } else if width == 9 {
        insert_placeholder(&mut row, 2);
        insert_placeholder(&mut row, 8);
        push_placeholders(&mut row, 8);
    } else if width == 8 {
        insert_placeholder(&mut row, 1);
        insert_placeholder(&mut row, 2);
        insert_placeholder(&mut row, 8);
        push_placeholders(&mut row, 8);
    } else {
        return None;
    }
    assert(row@.len() == texts(row@).len());
    Some(CompletedHistoryRow { columns: row })
}

fn normalize_history_row(cells: &Vec<serde_json::Value>) -> (r: Option<CompletedHistoryRow>)
    ensures
        match r {
            Some(full) => normalized_row(column_texts(json_views(cells@))) == Some(full@),
            None => normalized_row(column_texts(json_views(cells@))) is None,
        },
{
    let mut row: Vec<String> = Vec::new();
    let mut i: usize = 0;
    while i < cells.len()
        invariant
            i <= cells@.len(),
            texts(row@) == column_texts(json_views(cells@)).take(i as int),
        decreases cells@.len() - i,
    {
        let ghost before = texts(row@);
        row.push(column_of(&cells[i]));
        assert(texts(row@) =~= before.push(column_text(json_view(cells@[i as int]))));
        i = i + 1;
        assert(texts(row@) =~= column_texts(json_views(cells@)).take(i as int));
    }
    assert(texts(row@) =~= column_texts(json_views(cells@)));
    normalize_columns(row)
}

/// Reads a history document. Items that are no rows are left out.
pub fn history_from_bytes(bytes: &Vec<u8>) -> (r: Result<Vec<CompletedHistoryRow>, String>)
    ensures
        match json_document(bytes@) {
            Ok(document) => r matches Ok(rows) && row_views(rows@) == document_rows(document),
            Err(e) => r matches Err(text) && text@ == e,
        },
{
    let document = match parse_json(bytes) {
        Ok(document) => document,
        Err(e) => {
            return Err(e);
        },
    };
    let mut rows: Vec<CompletedHistoryRow> = Vec::new();
    match json_items(&document) {
        Some(items) => {
            let ghost views = json_views(items@);
            let mut i: usize = 0;
            assert(row_views(rows@) =~= views.take(0).filter_map(document_row()));
            while i < items.len()
                invariant
                    i <= items@.len(),
                    views == json_views(items@),
                    row_views(rows@) == views.take(i as int).filter_map(document_row()),
                decreases items@.len() - i,
            {
                let ghost before = row_views(rows@);
                proof {
                    views.lemma_filter_map_take_succ(document_row(), i as int);
                    assert(views[i as int] == json_view(items@[i as int]));
                }
                if let Some(cells) = json_items(&items[i]) {
                    if let Some(row) = normalize_history_row(cells) {
                        rows.push(row);
                        assert(row_views(rows@) =~= before.push(row@));
                    }
                }
                i = i + 1;
                assert(row_views(rows@) =~= views.take(i as int).filter_map(document_row()));
            }
            assert(views.take(i as int) =~= views);
        },
        None => {
            assert(row_views(rows@) =~= Seq::empty());
        },
    }
    Ok(rows)
}

/// Some row has this key.
pub open spec fn has_key(rows: Seq<Seq<Seq<char>>>, key: Seq<char>) -> bool {
    exists|i: int| 0 <= i < rows.len() && row_key(#[trigger] rows[i]) == key
}

/// The rows without those whose key an earlier row has.
pub open spec fn without_repeats(rows: Seq<Seq<Seq<char>>>) -> Seq<Seq<Seq<char>>>
    decreases rows.len(),
{
    if rows.len() == 0 {
        rows
    } else {
        let kept = without_repeats(rows.drop_last());
        if has_key(kept, row_key(rows.last())) {
            kept
        } else {
            kept.push(rows.last())
        }
    }
}

/// No two rows have the same key.
pub open spec fn unique_keys(rows: Seq<Seq<Seq<char>>>) -> bool {
    forall|i: int, j: int|
        0 <= i < j < rows.len() ==> row_key(#[trigger] rows[i]) != row_key(#[trigger] rows[j])
}

/// The history after a conversion: its row first, and of rows with equal keys only the first.
pub open spec fn appended(row: Seq<Seq<char>>, rows: Seq<Seq<Seq<char>>>) -> Seq<Seq<Seq<char>>> {
    without_repeats(seq![row] + rows)
}

/// Puts a new row before the existing ones and drops repeats.
pub fn append_history(
    row: CompletedHistoryRow,
    existing: &Vec<CompletedHistoryRow>,
) -> (r: Vec<CompletedHistoryRow>)
    ensures
        row_views(r@) == appended(row@, row_views(existing@)),
{
    let ghost all = seq![row@] + row_views(existing@);
    let mut merged: Vec<CompletedHistoryRow> = Vec::new();
    let mut seen: Vec<String> = Vec::new();
    seen.push(row.key());
    merged.push(row);
    let mut i: usize = 0;
    proof {
        assert(all.take(1) =~= seq![row@]);
        assert(row_views(merged@) =~= seq![row@]);
        lemma_single_row(row@);
    }
    while i < existing.len()
        invariant
            i <= existing@.len(),
            all == seq![row@] + row_views(existing@),
            row_views(merged@) == without_repeats(all.take(i + 1)),
            seen@.len() == merged@.len(),
            forall|k: int|
                0 <= k < merged@.len() ==> #[trigger] texts(seen@)[k] == row_key(
                    row_views(merged@)[k],
                ),
        decreases existing@.len() - i,
    {
        let candidate = &existing[i];
        let key = candidate.key();
        let ghost before = row_views(merged@);
        let ghost keys = texts(seen@);
        proof {
            assert(all.take(i + 2).drop_last() =~= all.take(i + 1));
            assert(all.take(i + 2).last() == candidate@);
            if keys.contains(key@) {
                let k = choose|k: int| 0 <= k < keys.len() && keys[k] == key@;
                assert(row_key(before[k]) == key@);
            }
            if has_key(before, key@) {
                let k = choose|k: int| 0 <= k < before.len() && row_key(#[trigger] before[k]) == key@;
                assert(keys[k] == key@);
            }
        }
        if !list_contains(&seen, key.as_str()) {
            seen.push(key);
            merged.push(candidate.clone());
            assert(row_views(merged@) =~= before.push(candidate@));
            assert(texts(seen@) =~= keys.push(row_key(candidate@)));
        }
        i = i + 1;
    }
    assert(all.take(i + 1) =~= all);
    merged
}

/// The document that holds a history: its rows, indented, and a line break.
pub open spec fn history_document(rows: Seq<Seq<Seq<char>>>) -> Seq<u8> {
    pretty_rows(rows).push(10u8)
}

/// Writes a history document, which ends in a line break.
pub fn history_to_bytes(rows: &Vec<CompletedHistoryRow>) -> (r: Result<Vec<u8>, String>)
    ensures
        r matches Ok(bytes) && bytes@ == history_document(row_views(rows@)),
        r matches Ok(bytes) && (json_document(bytes@) matches Ok(document) && holds_rows(
            document,
            row_views(rows@),
        ) && document_rows(document) == row_views(rows@)),
{
    let mut plain: Vec<Vec<String>> = Vec::new();
    let mut i: usize = 0;
    while i < rows.len()
        invariant
            i <= rows@.len(),
            row_texts(plain@) == row_views(rows@).take(i as int),
            forall|k: int| 0 <= k < i ==> (#[trigger] row_views(rows@)[k]).len() == 19,
        decreases rows@.len() - i,
    {
        let ghost before = row_texts(plain@);
        plain.push(copy_list(rows[i].columns()));
        assert(row_texts(plain@) =~= before.push(row_views(rows@)[i as int]));
        i = i + 1;
        assert(row_texts(plain@) =~= row_views(rows@).take(i as int));
    }
    assert(row_texts(plain@) =~= row_views(rows@));
    let mut bytes = match write_json_rows(&plain) {
        Ok(bytes) => bytes,
        Err(e) => {
            return Err(e);
        },
    };
    bytes.push(10u8);
    proof {
        let document = json_document(bytes@)->Ok_0;
        lemma_written_rows_read_back(document, row_views(rows@));
    }
    Ok(bytes)
}

proof fn lemma_written_rows_read_back(document: JsonView, rows: Seq<Seq<Seq<char>>>)
    requires
        holds_rows(document, rows),
        forall|k: int| 0 <= k < rows.len() ==> (#[trigger] rows[k]).len() == 19,
    ensures
        document_rows(document) == rows,
{
    let items = document->List_0;
    assert forall|k: int| 0 <= k < rows.len() implies document_row()(#[trigger] items[k]) == Some(
        rows[k],
    ) by {
        assert(holds_cells(items[k], rows[k]));
        let cells = items[k]->List_0;
        assert(column_texts(cells) =~= rows[k]);
    }
    lemma_filter_map_all(items, rows, items.len() as int);
    assert(items.take(items.len() as int) =~= items);
    assert(rows.take(items.len() as int) =~= rows);
}

proof fn lemma_filter_map_all(items: Seq<JsonView>, rows: Seq<Seq<Seq<char>>>, n: int)
    requires
        items.len() == rows.len(),
        0 <= n <= items.len(),
        forall|k: int|
            0 <= k < rows.len() ==> document_row()(#[trigger] items[k]) == Some(rows[k]),
    ensures
        items.take(n).filter_map(document_row()) == rows.take(n),
    decreases n,
{
    if n == 0 {
        assert(items.take(0).filter_map(document_row()) =~= rows.take(0));
    } else {
        lemma_filter_map_all(items, rows, n - 1);
        items.lemma_filter_map_take_succ(document_row(), n - 1);
        assert(document_row()(items[n - 1]) == Some(rows[n - 1]));
        assert(rows.take(n) =~= rows.take(n - 1).push(rows[n - 1]));
    }
}

/// Every row that is read has 19 columns.
pub proof fn law_normalized_rows_are_full(row: Seq<Seq<char>>)
    ensures
        normalized_row(row) matches Some(full) ==> full.len() == 19,
        normalized_row(row) matches Some(full) ==> normalized_row(full) == Some(full),
{
}

/// Dropping repeats leaves no repeats, keeps every key and the first row, and changes nothing the
/// second time.
pub proof fn law_history_has_no_repeats(rows: Seq<Seq<Seq<char>>>)
    ensures
        unique_keys(without_repeats(rows)),
        forall|key: Seq<char>|
            #![trigger has_key(rows, key)]
            has_key(rows, key) <==> has_key(without_repeats(rows), key),
        rows.len() > 0 ==> without_repeats(rows).len() > 0 && without_repeats(rows)[0] == rows[0],
        unique_keys(rows) ==> without_repeats(rows) == rows,
    decreases rows.len(),
{
    if rows.len() > 0 {
        let rest = rows.drop_last();
        let last = rows.last();
        law_history_has_no_repeats(rest);
        let kept = without_repeats(rest);
        let out = without_repeats(rows);
        assert forall|key: Seq<char>|
            #![trigger has_key(rows, key)]
            has_key(rows, key) <==> has_key(out, key) by {
            if has_key(rows, key) {
                let i = choose|i: int| 0 <= i < rows.len() && row_key(#[trigger] rows[i]) == key;
                if i < rest.len() {
                    assert(rest[i] == rows[i]);
                    assert(has_key(rest, key));
                    let j = choose|j: int| 0 <= j < kept.len() && row_key(#[trigger] kept[j]) == key;
                    assert(out[j] == kept[j]);
                } else if !has_key(kept, row_key(last)) {
                    assert(out[kept.len() as int] == last);
                }
            }
            if has_key(out, key) {
                let j = choose|j: int| 0 <= j < out.len() && row_key(#[trigger] out[j]) == key;
                if j < kept.len() {
                    assert(kept[j] == out[j]);
                    assert(has_key(kept, key));
                    assert(has_key(rest, key));
                    let i = choose|i: int| 0 <= i < rest.len() && row_key(#[trigger] rest[i]) == key;
                    assert(rows[i] == rest[i]);
                } else {
                    assert(rows[rows.len() - 1] == last);
                }
            }
        }
        assert(unique_keys(out)) by {
            assert forall|i: int, j: int| 0 <= i < j < out.len() implies row_key(#[trigger] out[i])
                != row_key(#[trigger] out[j]) by {
                assert(out[i] == kept[i]);
                if j < kept.len() {
                    assert(out[j] == kept[j]);
                }
            }
        }
        if rest.len() > 0 {
            assert(rest[0] == rows[0]);
            assert(out[0] == kept[0]);
        } else {
            assert(kept.len() == 0);
            assert(!has_key(kept, row_key(last)));
        }
        if unique_keys(rows) {
            assert(unique_keys(rest)) by {
                assert forall|i: int, j: int| 0 <= i < j < rest.len() implies row_key(
                    #[trigger] rest[i],
                ) != row_key(#[trigger] rest[j]) by {
                    assert(rest[i] == rows[i] && rest[j] == rows[j]);
                }
            }
            assert(kept == rest);
            if has_key(kept, row_key(last)) {
                let j = choose|j: int|
                    0 <= j < kept.len() && row_key(#[trigger] kept[j]) == row_key(last);
                assert(rows[j] == kept[j]);
                assert(rows[rows.len() - 1] == last);
            }
            assert(out =~= rows);
        }
    }
}

/// The newest row comes first, no two rows have the same key, and no earlier conversion is forgotten.
pub proof fn law_append_puts_newest_first(row: Seq<Seq<char>>, rows: Seq<Seq<Seq<char>>>)
    ensures
        appended(row, rows).len() > 0,
        appended(row, rows)[0] == row,
        unique_keys(appended(row, rows)),
        forall|key: Seq<char>| #[trigger]
            has_key(rows, key) ==> has_key(appended(row, rows), key),
        appended(row, appended(row, rows)) == appended(row, rows),
{
    let all = seq![row] + rows;
    law_history_has_no_repeats(all);
    assert forall|key: Seq<char>| #[trigger] has_key(rows, key) implies has_key(
        appended(row, rows),
        key,
    ) by {
        let i = choose|i: int| 0 <= i < rows.len() && row_key(#[trigger] rows[i]) == key;
        assert(all[i + 1] == rows[i]);
        assert(has_key(all, key));
    }
    let once = appended(row, rows);
    lemma_repeated_head(row, once, once.len() as int);
    assert(once.take(once.len() as int) =~= once);
}

proof fn lemma_single_row(row: Seq<Seq<char>>)
    ensures
        without_repeats(seq![row]) == seq![row],
{
    let none = Seq::<Seq<Seq<char>>>::empty();
    assert(seq![row].drop_last() =~= none);
    assert(without_repeats(none) == none);
    assert(!has_key(none, row_key(row)));
    assert(none.push(row) =~= seq![row]);
}

/// Putting the first row of a list without repeats in front once more changes nothing.
proof fn lemma_repeated_head(row: Seq<Seq<char>>, rows: Seq<Seq<Seq<char>>>, n: int)
    requires
        rows.len() > 0,
        rows[0] == row,
        unique_keys(rows),
        1 <= n <= rows.len(),
    ensures
        without_repeats(seq![row] + rows.take(n)) == rows.take(n),
    decreases n,
{
    let all = seq![row] + rows.take(n);
    assert(all.drop_last() =~= seq![row] + rows.take(n - 1));
    assert(all.last() == rows[n - 1]);
    if n == 1 {
        assert(rows.take(0) =~= Seq::<Seq<Seq<char>>>::empty());
        assert(seq![row] + rows.take(0) =~= seq![row]);
        lemma_single_row(row);
        assert(seq![row][0] == row);
        assert(has_key(seq![row], row_key(row)));
        assert(rows.take(1) =~= seq![row]);
    } else {
        lemma_repeated_head(row, rows, n - 1);
        let kept = rows.take(n - 1);
        if has_key(kept, row_key(rows[n - 1])) {
            let j = choose|j: int|
                0 <= j < kept.len() && row_key(#[trigger] kept[j]) == row_key(rows[n - 1]);
            assert(kept[j] == rows[j]);
        }
        assert(kept.push(rows[n - 1]) =~= rows.take(n));
    }
}

} // verus!
