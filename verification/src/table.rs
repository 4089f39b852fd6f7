//! Splitting the bytes of an export into its header and rows.

use vstd::prelude::*;
use csv::{Error, Reader, StringRecord};

verus! {

/// The failure of `csv` to read a record.
#[verifier::external_type_specification]
#[verifier::external_body]
pub struct ExCsvError(Error);

/// The fields of the first record of `input`, as `csv` reads them: none
/// where the input holds no record, and `None` where they are not valid
/// text.
pub uninterp spec fn csv_header(input: Seq<u8>) -> Option<Seq<Seq<char>>>;

/// The records of `input` after the first, in order, as `csv` reads them:
/// the fields of each, with bytes that are no valid text replaced, or
/// `None` for a record that it rejects.
pub uninterp spec fn csv_rows(input: Seq<u8>) -> Seq<Option<Seq<Seq<char>>>>;

/// The fields of a row as it came from the reader, or `None` for a rejected
/// one.
pub open spec fn row_fields(row: Result<Vec<String>, Error>) -> Option<Seq<Seq<char>>> {
    match row {
        Ok(fields) => Some(fields.deep_view()),
        Err(_) => None,
    }
}

/// The fields of every row of a table.
pub open spec fn table_fields(rows: Seq<Result<Vec<String>, Error>>) -> Seq<Option<Seq<Seq<char>>>> {
    rows.map_values(|row: Result<Vec<String>, Error>| row_fields(row))
}

/// Calls `csv::Reader::from_reader` on the bytes, then `Reader::headers` and
/// `Reader::byte_records` on the reader, turns each record into text with
/// `StringRecord::from_byte_record_lossy`, and copies the fields out.
///
/// Trusted: the header and the rows that come out are functions of the
/// bytes alone.
#[verifier::external_body]
pub(crate) fn read_table(input: &[u8]) -> (table: (Option<Vec<String>>, Vec<Result<Vec<String>, Error>>))
    ensures
        table.0.deep_view() == csv_header(input@),
        table_fields(table.1@) == csv_rows(input@),
{
    let mut reader = Reader::from_reader(input);
    let header = reader.headers().ok().map(|names| names.iter().map(String::from).collect());
    let rows = reader
        .byte_records()
        .map(|record| Ok(StringRecord::from_byte_record_lossy(record?).iter().map(String::from).collect()))
        .collect();
    (header, rows)
}

} // verus!
