//! The results of database queries as JSON.
use crate::base64_text::{base64_of, encode_base64};
use crate::domain_remo::{array_of_texts, text_array};
use crate::filesystem::{describe_fault, path_fault, resolve, resolved};
use crate::json::{
    no_entries, no_fields, number_view, trees, whole, with_fields, Json, JsonView,
};
use crate::text::{joined, texts};
use crate::utf8_text::{lossy_text, lossy_utf8, readable};
use vstd::prelude::*;
use vstd::utf8::{decode_utf8, valid_utf8};

verus! {

/// A value of a row.
#[derive(Debug)]
pub enum SqlValue {
    Null,
    Integer(i64),
    /// A fraction as a JSON number, where it is finite.
    Real(Option<serde_json::Number>),
    /// The bytes of a text, which need not be UTF-8.
    Text(Vec<u8>),
    Blob(Vec<u8>),
}

/// A value of a row as JSON: a text as it reads, bytes in base64.
pub open spec fn value_view(value: SqlValue) -> JsonView {
    match value {
        SqlValue::Null => JsonView::Null,
        SqlValue::Integer(n) => whole(n as int),
        SqlValue::Real(Some(n)) => JsonView::Number(number_view(n)),
        SqlValue::Real(None) => JsonView::Null,
        SqlValue::Text(bytes) => JsonView::Text(readable(bytes@)),
        SqlValue::Blob(bytes) => JsonView::Text(base64_of(bytes@)),
    }
}

/// A value of a row as JSON.
pub fn value_ref_to_json(value: &SqlValue) -> (json: Json)
    ensures
        json@ == value_view(*value),
{
    match value {
        SqlValue::Null => Json::Null,
        SqlValue::Integer(n) => Json::signed(*n),
        SqlValue::Real(number) => match number {
            Some(n) => Json::Number(n.clone()),
            None => Json::Null,
        },
        SqlValue::Text(bytes) => Json::Text(lossy_text(bytes.as_slice())),
        SqlValue::Blob(bytes) => Json::Text(encode_base64(bytes.as_slice())),
    }
}

/// A row as JSON.
pub open spec fn row_view(row: Seq<SqlValue>) -> JsonView {
    JsonView::Array(Seq::new(row.len(), |i: int| value_view(row[i])))
}

/// The rows of a query as JSON.
pub open spec fn rows_view(columns: Seq<Seq<char>>, rows: Seq<Vec<SqlValue>>) -> JsonView {
    no_entries().with("columns"@, text_array(columns)).with(
        "rows"@,
        JsonView::Array(Seq::new(rows.len(), |i: int| row_view(rows[i]@))),
    )
}

/// What became of a statement.
#[derive(Debug)]
pub enum QueryOutcome {
    /// The database did not open.
    OpenFailed(String),
    /// The statement was not understood.
    PrepareFailed(String),
    /// The statement has no columns, so it was executed: the number of rows that it changed.
    Executed(u64),
    /// The statement has no columns, and could not be executed.
    ExecuteFailed(String),
    /// The statement has columns, and could not be run.
    RunFailed(String),
    /// The statement has columns, and a row could not be read.
    RowFailed(String),
    /// The statement has columns, and these are its rows.
    Rows { columns: Vec<String>, rows: Vec<Vec<SqlValue>> },
}

/// Why a statement on the database at a place gives no result.
pub open spec fn query_fault(place: Seq<char>, outcome: QueryOutcome) -> Option<Seq<char>> {
    match outcome {
        QueryOutcome::OpenFailed(error) => Some(path_fault("open"@, place, error@)),
        QueryOutcome::PrepareFailed(error) => Some("failed to prepare SQL: "@ + error@),
        QueryOutcome::ExecuteFailed(error) => Some("failed to execute SQL: "@ + error@),
        QueryOutcome::RunFailed(error) => Some("failed to run query: "@ + error@),
        QueryOutcome::RowFailed(error) => Some("failed to read a row: "@ + error@),
        QueryOutcome::Executed(_) => None,
        QueryOutcome::Rows { columns, rows } => None,
    }
}

/// The result of a statement.
pub open spec fn query_result(outcome: QueryOutcome) -> JsonView {
    match outcome {
        QueryOutcome::Executed(count) => no_entries().with("rows_affected"@, whole(count as int)),
        QueryOutcome::Rows { columns, rows } => rows_view(texts(columns@), rows@),
        _ => JsonView::Null,
    }
}

fn row_json(row: &Vec<SqlValue>) -> (json: Json)
    ensures
        json@ == row_view(row@),
{
    let ghost goal = Seq::new(row@.len(), |i: int| value_view(row@[i]));
    let mut items: Vec<Json> = Vec::new();
    let mut i: usize = 0;
    while i < row.len()
        invariant
            i <= row.len(),
            goal == Seq::new(row@.len(), |i: int| value_view(row@[i])),
            items@.len() == i,
            forall|j: int| 0 <= j < i ==> (#[trigger] items@[j])@ == goal[j],
        decreases row.len() - i,
    {
        items.push(value_ref_to_json(&row[i]));
        i = i + 1;
    }
    assert(trees(items@) =~= goal);
    Json::array(items)
}

fn rows_json(columns: &Vec<String>, rows: &Vec<Vec<SqlValue>>) -> (json: Json)
    ensures
        json@ == rows_view(texts(columns@), rows@),
{
    let ghost goal = Seq::new(rows@.len(), |i: int| row_view(rows@[i]@));
    let mut items: Vec<Json> = Vec::new();
    let mut i: usize = 0;
    while i < rows.len()
        invariant
            i <= rows.len(),
            goal == Seq::new(rows@.len(), |i: int| row_view(rows@[i]@)),
            items@.len() == i,
            forall|j: int| 0 <= j < i ==> (#[trigger] items@[j])@ == goal[j],
        decreases rows.len() - i,
    {
        items.push(row_json(&rows[i]));
        i = i + 1;
    }
    assert(trees(items@) =~= goal);
    Json::empty().with("columns", array_of_texts(columns)).with("rows", Json::array(items))
}

/// Whether a statement is executed, because it has no columns and so gives no rows.
pub fn is_executed(column_count: usize) -> (yes: bool)
    ensures
        yes == (column_count == 0),
{
    column_count == 0
}

/// The result of a statement on the database at a path: its columns and rows, or how many rows it
/// changed, or why it failed.
pub fn query(path: &str, home: &str, outcome: &QueryOutcome) -> (result: Result<Json, String>)
    ensures
        result is Err == query_fault(resolved(path@, home@), *outcome) is Some,
        result matches Ok(json) ==> json@ == query_result(*outcome),
        result matches Err(message) ==> query_fault(resolved(path@, home@), *outcome) == Some(
            message@,
        ),
{
    match outcome {
        QueryOutcome::OpenFailed(error) => Err(
            describe_fault("open", resolve(path, home).as_str(), error.as_str()),
        ),
        QueryOutcome::PrepareFailed(error) => Err(
            joined("failed to prepare SQL: ", error.as_str()),
        ),
        QueryOutcome::Executed(count) => Ok(
            Json::empty().with("rows_affected", Json::unsigned(*count)),
        ),
        QueryOutcome::ExecuteFailed(error) => Err(
            joined("failed to execute SQL: ", error.as_str()),
        ),
        QueryOutcome::RunFailed(error) => Err(joined("failed to run query: ", error.as_str())),
        QueryOutcome::RowFailed(error) => Err(joined("failed to read a row: ", error.as_str())),
        QueryOutcome::Rows { columns, rows } => Ok(rows_json(columns, rows)),
    }
}

/// Whether a value of a row is told by a JSON value: nothing as null, an integer and a fraction as
/// that number, a text as it reads, and bytes in base64.
pub open spec fn cell_tells(value: SqlValue, json: JsonView) -> bool {
    match value {
        SqlValue::Null => json is Null,
        SqlValue::Integer(n) => json.signed() == Some(n as int),
        SqlValue::Real(Some(n)) => json == JsonView::Number(number_view(n)),
        SqlValue::Real(None) => json is Null,
        SqlValue::Text(bytes) => json matches JsonView::Text(text) && (valid_utf8(bytes@) ==> text
            == decode_utf8(bytes@)) && (!valid_utf8(bytes@) ==> text == lossy_utf8(bytes@)),
        SqlValue::Blob(bytes) => json == JsonView::Text(base64_of(bytes@)),
    }
}

/// The rows of a statement come in the order in which the database gave them, each value in its
/// place, and so do the names of the columns.
pub proof fn rows_come_in_order(columns: Vec<String>, rows: Vec<Vec<SqlValue>>)
    ensures
        ({
            let result = query_result(QueryOutcome::Rows { columns, rows });
            &&& result.field("columns"@) matches Some(JsonView::Array(names)) && names.len()
                == columns@.len() && forall|j: int|
                0 <= j < names.len() ==> #[trigger] names[j] == JsonView::Text(columns@[j]@)
            &&& result.field("rows"@) matches Some(JsonView::Array(list)) && list.len()
                == rows@.len() && forall|i: int|
                0 <= i < list.len() ==> (#[trigger] list[i] matches JsonView::Array(row)
                    && row.len() == rows@[i]@.len() && forall|j: int|
                    0 <= j < row.len() ==> cell_tells(rows@[i]@[j], #[trigger] row[j]))
        }),
{
    broadcast use {with_fields, no_fields};
    reveal_strlit("columns");
    reveal_strlit("rows");
    assert("columns"@.len() == 7);
    assert("rows"@.len() == 4);
}

/// A statement without columns tells how many rows it changed, and nothing else.
pub proof fn changes_are_counted(count: u64)
    ensures
        query_result(QueryOutcome::Executed(count)).unsigned_field("rows_affected"@) == Some(
            count as int,
        ),
        query_result(QueryOutcome::Executed(count)).field("rows"@) is None,
        query_result(QueryOutcome::Executed(count)).field("columns"@) is None,
{
    broadcast use {with_fields, no_fields};
    reveal_strlit("columns");
    reveal_strlit("rows");
    reveal_strlit("rows_affected");
    assert("columns"@.len() == 7);
    assert("rows"@.len() == 4);
    assert("rows_affected"@.len() == 13);
}

/// A statement fails exactly where a step of it failed, and says which step and why: the message
/// ends in the reason. Where the database did not open, it names the place.
pub proof fn failures_say_which_step(place: Seq<char>, outcome: QueryOutcome)
    ensures
        query_fault(place, outcome) is None <==> outcome is Executed || outcome is Rows,
        outcome matches QueryOutcome::OpenFailed(error) ==> query_fault(place, outcome) == Some(
            path_fault("open"@, place, error@),
        ),
        outcome matches QueryOutcome::PrepareFailed(error) ==> query_fault(place, outcome) == Some(
            "failed to prepare SQL: "@ + error@,
        ),
        outcome matches QueryOutcome::ExecuteFailed(error) ==> query_fault(place, outcome) == Some(
            "failed to execute SQL: "@ + error@,
        ),
        outcome matches QueryOutcome::RunFailed(error) ==> query_fault(place, outcome) == Some(
            "failed to run query: "@ + error@,
        ),
        outcome matches QueryOutcome::RowFailed(error) ==> query_fault(place, outcome) == Some(
            "failed to read a row: "@ + error@,
        ),
{
}

} // verus!
