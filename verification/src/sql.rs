//! Statements for the database, the rows it answers with, and how columns are read.

use crate::text::opt_text;
use crate::timestamp::{parsed_timestamp, Timestamp};
use vstd::prelude::*;

verus! {

/// A value that goes into a statement or comes out of a row.
#[derive(Debug)]
pub enum SqlValue {
    Null,
    Integer(i64),
    Text(String),
    /// A text whose bytes are not UTF-8.
    Garbled,
    /// A value of a kind that no column here has: a real number or raw bytes.
    Other,
}

/// A value with its text as characters.
pub enum SqlView {
    Null,
    Integer(i64),
    Text(Seq<char>),
    Garbled,
    Other,
}

impl View for SqlValue {
    type V = SqlView;

    open spec fn view(&self) -> SqlView {
        match *self {
            SqlValue::Null => SqlView::Null,
            SqlValue::Integer(n) => SqlView::Integer(n),
            SqlValue::Text(t) => SqlView::Text(t@),
            SqlValue::Garbled => SqlView::Garbled,
            SqlValue::Other => SqlView::Other,
        }
    }
}

/// The values of a row, or those bound to a statement.
pub open spec fn values_view(values: Seq<SqlValue>) -> Seq<SqlView> {
    values.map_values(|value: SqlValue| value@)
}

/// A statement with the values bound to its parameters, in order.
#[derive(Debug)]
pub struct Statement {
    pub sql: String,
    pub params: Vec<SqlValue>,
}

/// A statement and its values as characters.
#[verifier::ext_equal]
pub struct StatementView {
    pub sql: Seq<char>,
    pub params: Seq<SqlView>,
}

impl View for Statement {
    type V = StatementView;

    open spec fn view(&self) -> StatementView {
        StatementView { sql: self.sql@, params: values_view(self.params@) }
    }
}

/// Why a row could not be read; the number is that of a column.
#[derive(Debug, Clone, Copy, PartialEq, Eq, Structural)]
pub enum RowError {
    /// The row has no such column.
    InvalidColumnIndex(usize),
    /// The column holds a value of another kind.
    InvalidColumnType(usize),
    /// The column's text could not be turned into what it stands for.
    FromSqlConversionFailure(usize),
}

/// Why a request to the database failed.
#[derive(Debug)]
pub enum DbError {
    /// A row could not be read.
    Row(RowError),
    /// The database has no row where one was asked for.
    QueryReturnedNoRows,
    /// The database reported an error, in these words.
    Driver(String),
}

/// What the database answers where one row is asked for.
#[derive(Debug)]
pub enum Fetch {
    Row(Vec<SqlValue>),
    NoRows,
    Failed(String),
}

/// What the database answers where all rows are asked for: the rows it gave, and the error it
/// stopped with, if it did.
#[derive(Debug)]
pub struct FetchAll {
    pub rows: Vec<Vec<SqlValue>>,
    pub failed: Option<String>,
}

/// The rows of an answer.
pub open spec fn rows_view(rows: Seq<Vec<SqlValue>>) -> Seq<Seq<SqlView>> {
    rows.map_values(|row: Vec<SqlValue>| values_view(row@))
}

/// Whether `error` is what is wrong with the first row with which anything is wrong.
pub open spec fn is_first_fault(
    rows: Seq<Seq<SqlView>>,
    fault: spec_fn(Seq<SqlView>) -> Option<RowError>,
    error: RowError,
) -> bool {
    exists|k: int|
        0 <= k < rows.len() && fault(#[trigger] rows[k]) == Some(error) && no_fault(
            rows.take(k),
            fault,
        )
}

/// Whether nothing is wrong with any row.
pub open spec fn no_fault(
    rows: Seq<Seq<SqlView>>,
    fault: spec_fn(Seq<SqlView>) -> Option<RowError>,
) -> bool {
    forall|k: int| 0 <= k < rows.len() ==> fault(#[trigger] rows[k]) is None
}

/// The integer in a column.
pub open spec fn int_column(row: Seq<SqlView>, column: usize) -> Result<i64, RowError> {
    if column >= row.len() {
        Err(RowError::InvalidColumnIndex(column))
    } else {
        match row[column as int] {
            SqlView::Integer(n) => Ok(n),
            _ => Err(RowError::InvalidColumnType(column)),
        }
    }
}

/// The text in a column.
pub open spec fn text_column(row: Seq<SqlView>, column: usize) -> Result<Seq<char>, RowError> {
    if column >= row.len() {
        Err(RowError::InvalidColumnIndex(column))
    } else {
        match row[column as int] {
            SqlView::Text(t) => Ok(t),
            SqlView::Garbled => Err(RowError::FromSqlConversionFailure(column)),
            _ => Err(RowError::InvalidColumnType(column)),
        }
    }
}

/// The text in a column that may be null.
pub open spec fn opt_text_column(row: Seq<SqlView>, column: usize) -> Result<
    Option<Seq<char>>,
    RowError,
> {
    if column >= row.len() {
        Err(RowError::InvalidColumnIndex(column))
    } else {
        match row[column as int] {
            SqlView::Null => Ok(None),
            SqlView::Text(t) => Ok(Some(t)),
            SqlView::Garbled => Err(RowError::FromSqlConversionFailure(column)),
            _ => Err(RowError::InvalidColumnType(column)),
        }
    }
}

/// The point in time in a column. A text that is none is reported for the column `reported`.
pub open spec fn time_column(row: Seq<SqlView>, column: usize, reported: usize) -> Result<
    Timestamp,
    RowError,
> {
    match text_column(row, column) {
        Ok(text) => match parsed_timestamp(text) {
            Some(t) => Ok(t),
            None => Err(RowError::FromSqlConversionFailure(reported)),
        },
        Err(e) => Err(e),
    }
}

/// The point in time in a column that may be null. A text that is none is reported for the column
/// `reported`.
pub open spec fn opt_time_column(row: Seq<SqlView>, column: usize, reported: usize) -> Result<
    Option<Timestamp>,
    RowError,
> {
    match opt_text_column(row, column) {
        Ok(Some(text)) => match parsed_timestamp(text) {
            Some(t) => Ok(Some(t)),
            None => Err(RowError::FromSqlConversionFailure(reported)),
        },
        Ok(None) => Ok(None),
        Err(e) => Err(e),
    }
}

/// The point in time in a column that may be null; a text that is none counts as null.
pub open spec fn lenient_time_column(row: Seq<SqlView>, column: usize) -> Result<
    Option<Timestamp>,
    RowError,
> {
    match opt_text_column(row, column) {
        Ok(Some(text)) => Ok(parsed_timestamp(text)),
        Ok(None) => Ok(None),
        Err(e) => Err(e),
    }
}

/// What was read, its text as characters.
pub open spec fn text_result(read: Result<String, RowError>) -> Result<Seq<char>, RowError> {
    match read {
        Ok(text) => Ok(text@),
        Err(e) => Err(e),
    }
}

/// What was read, its optional text as characters.
pub open spec fn opt_text_result(read: Result<Option<String>, RowError>) -> Result<
    Option<Seq<char>>,
    RowError,
> {
    match read {
        Ok(text) => Ok(opt_text(text)),
        Err(e) => Err(e),
    }
}

/// Reads the integer in a column.
pub fn int_at(row: &Vec<SqlValue>, column: usize) -> (read: Result<i64, RowError>)
    ensures
        read == int_column(values_view(row@), column),
{
    if column >= row.len() {
        return Err(RowError::InvalidColumnIndex(column));
    }
    match &row[column] {
        SqlValue::Integer(n) => Ok(*n),
        _ => Err(RowError::InvalidColumnType(column)),
    }
}

/// Reads the text in a column.
pub fn text_at(row: &Vec<SqlValue>, column: usize) -> (read: Result<String, RowError>)
    ensures
        text_result(read) == text_column(values_view(row@), column),
        read matches Ok(text) ==> row@[column as int] == SqlValue::Text(text),
{
    if column >= row.len() {
        return Err(RowError::InvalidColumnIndex(column));
    }
    match &row[column] {
        SqlValue::Text(t) => Ok(t.clone()),
        SqlValue::Garbled => Err(RowError::FromSqlConversionFailure(column)),
        _ => Err(RowError::InvalidColumnType(column)),
    }
}

/// Reads the text in a column that may be null.
pub fn opt_text_at(row: &Vec<SqlValue>, column: usize) -> (read: Result<Option<String>, RowError>)
    ensures
        opt_text_result(read) == opt_text_column(values_view(row@), column),
{
    if column >= row.len() {
        return Err(RowError::InvalidColumnIndex(column));
    }
    match &row[column] {
        SqlValue::Null => Ok(None),
        SqlValue::Text(t) => Ok(Some(t.clone())),
        SqlValue::Garbled => Err(RowError::FromSqlConversionFailure(column)),
        _ => Err(RowError::InvalidColumnType(column)),
    }
}

/// Reads the point in time in a column.
pub fn time_at(row: &Vec<SqlValue>, column: usize, reported: usize) -> (read: Result<
    Timestamp,
    RowError,
>)
    ensures
        read == time_column(values_view(row@), column, reported),
{
    match text_at(row, column) {
        Ok(text) => match Timestamp::parse_from_rfc3339(text.as_str()) {
            Some(t) => Ok(t),
            None => Err(RowError::FromSqlConversionFailure(reported)),
        },
        Err(e) => Err(e),
    }
}

/// Reads the point in time in a column that may be null.
pub fn opt_time_at(row: &Vec<SqlValue>, column: usize, reported: usize) -> (read: Result<
    Option<Timestamp>,
    RowError,
>)
    ensures
        read == opt_time_column(values_view(row@), column, reported),
{
    match opt_text_at(row, column) {
        Ok(Some(text)) => match Timestamp::parse_from_rfc3339(text.as_str()) {
            Some(t) => Ok(Some(t)),
            None => Err(RowError::FromSqlConversionFailure(reported)),
        },
        Ok(None) => Ok(None),
        Err(e) => Err(e),
    }
}

/// Reads the point in time in a column that may be null; a text that is none counts as null.
pub fn lenient_time_at(row: &Vec<SqlValue>, column: usize) -> (read: Result<
    Option<Timestamp>,
    RowError,
>)
    ensures
        read == lenient_time_column(values_view(row@), column),
{
    match opt_text_at(row, column) {
        Ok(Some(text)) => Ok(Timestamp::parse_from_rfc3339(text.as_str())),
        Ok(None) => Ok(None),
        Err(e) => Err(e),
    }
}

/// The integer that stands for yes or no.
pub open spec fn flag_value(flag: bool) -> SqlView {
    SqlView::Integer(if flag { 1 } else { 0 })
}

/// The value that stands for an optional text.
pub open spec fn opt_text_value(text: Option<Seq<char>>) -> SqlView {
    match text {
        Some(t) => SqlView::Text(t),
        None => SqlView::Null,
    }
}

/// The value that stands for a point in time.
pub open spec fn time_value(t: Timestamp) -> SqlView {
    SqlView::Text(t.rfc3339())
}

/// The value that stands for an optional point in time.
pub open spec fn opt_time_value(t: Option<Timestamp>) -> SqlView {
    match t {
        Some(t) => time_value(t),
        None => SqlView::Null,
    }
}

/// The value of a text.
pub fn text_param(text: &str) -> (value: SqlValue)
    ensures
        value@ == SqlView::Text(text@),
{
    SqlValue::Text(text.to_owned())
}

/// The value of yes or no.
pub fn flag_param(flag: bool) -> (value: SqlValue)
    ensures
        value@ == flag_value(flag),
{
    SqlValue::Integer(
        if flag {
            1
        } else {
            0
        },
    )
}

/// The value of an optional text.
pub fn opt_text_param(text: &Option<String>) -> (value: SqlValue)
    ensures
        value@ == opt_text_value(opt_text(*text)),
{
    match text {
        Some(t) => SqlValue::Text(t.clone()),
        None => SqlValue::Null,
    }
}

/// The value of a point in time. From a year of four digits the same point is read back.
pub fn time_param(t: &Timestamp) -> (value: SqlValue)
    ensures
        value@ == time_value(*t),
        crate::timestamp::four_digit_year(t.secs()) ==> parsed_timestamp(t.rfc3339()) == Some(*t),
{
    let text: String = t.to_rfc3339();
    proof {
        if crate::timestamp::four_digit_year(t.secs()) {
            crate::timestamp::lemma_parses_to(text@, *t);
        }
    }
    SqlValue::Text(text)
}

/// The value of an optional point in time. From a year of four digits the same point is read
/// back.
pub fn opt_time_param(t: &Option<Timestamp>) -> (value: SqlValue)
    ensures
        value@ == opt_time_value(*t),
        *t matches Some(t) ==> crate::timestamp::four_digit_year(t.secs()) ==> parsed_timestamp(
            t.rfc3339(),
        ) == Some(t),
{
    match t {
        Some(t) => time_param(t),
        None => SqlValue::Null,
    }
}

/// A `u64` is kept in the signed integer with the same bits, and these read back as the `u64`.
pub proof fn lemma_signed_bits(n: u64)
    ensures
        (n as i64) as u64 == n,
{
    assert((n as i64) as u64 == n) by (bit_vector);
}

} // verus!
