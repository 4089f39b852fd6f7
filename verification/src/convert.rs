//! The conversion of an export into a chart document, row by row.

use vstd::prelude::*;
use csv::Error;
use crate::chart::{AssemblerModel, ChartAssembler, ChartDocument, DocumentModel};
use crate::date::{date_of, parse_created, Date, CREATED_FORMAT};
use crate::record::{
    column_roles,
    decode_row,
    parse_record,
    roles_of,
    Column,
    IssueRecord,
    RecordError,
    RecordModel,
};
use crate::table::{csv_header, csv_rows, read_table, row_fields, table_fields};

verus! {

/// Why a row stops the conversion.
#[derive(Clone, Copy, Debug, PartialEq, Eq, Structural)]
pub enum RowError {
    /// The row is no proper record of the table.
    Malformed,
    /// The row cannot be decoded into a record.
    Record(RecordError),
    /// The creation timestamp of the record cannot be read.
    InvalidDate,
}

/// The failure of a conversion: the first row that stops it, counted from
/// zero after the header, and why.
#[derive(Clone, Copy, Debug, PartialEq, Eq, Structural)]
pub struct ConvertError {
    pub row: usize,
    pub cause: RowError,
}

/// What a row contributes: a record with the day of its creation, nothing
/// if the issue key is empty, or the reason why the row stops the
/// conversion. A row with an empty key is passed over before its timestamp
/// is looked at.
pub open spec fn entry_of(
    roles: Seq<Option<Column>>,
    row: Option<Seq<Seq<char>>>,
    format: Seq<char>,
) -> Result<Option<(RecordModel, Date)>, RowError> {
    match row {
        None => Err(RowError::Malformed),
        Some(fields) => match decode_row(roles, fields) {
            Err(e) => Err(RowError::Record(e)),
            Ok(record) => if record.key.len() == 0 {
                Ok(None)
            } else {
                match date_of(record.created, format) {
                    None => Err(RowError::InvalidDate),
                    Some(created) => Ok(Some((record, created))),
                }
            },
        },
    }
}

/// The records of a table with the days of their creation, in the order of
/// the rows, or the failure of the first row that stops the conversion.
pub open spec fn entries_of(
    roles: Seq<Option<Column>>,
    rows: Seq<Option<Seq<Seq<char>>>>,
    format: Seq<char>,
) -> Result<Seq<(RecordModel, Date)>, ConvertError>
    decreases rows.len(),
{
    if rows.len() == 0 {
        Ok(Seq::empty())
    } else {
        match entries_of(roles, rows.drop_last(), format) {
            Err(e) => Err(e),
            Ok(entries) => match entry_of(roles, rows.last(), format) {
                Err(cause) => Err(ConvertError { row: (rows.len() - 1) as usize, cause }),
                Ok(None) => Ok(entries),
                Ok(Some(entry)) => Ok(entries.push(entry)),
            },
        }
    }
}

/// The assembler after it has taken in the given records, one after the
/// other.
pub open spec fn assemble(entries: Seq<(RecordModel, Date)>, colored: bool) -> AssemblerModel
    decreases entries.len(),
{
    if entries.len() == 0 {
        AssemblerModel::empty(colored)
    } else {
        assemble(entries.drop_last(), colored).with_record(entries.last().0, entries.last().1)
    }
}

/// The document of a table, or the failure of the first row that stops the
/// conversion.
pub open spec fn chart_of(
    roles: Seq<Option<Column>>,
    rows: Seq<Option<Seq<Seq<char>>>>,
    format: Seq<char>,
    colored: bool,
) -> Result<DocumentModel, ConvertError> {
    match entries_of(roles, rows, format) {
        Ok(entries) => Ok(assemble(entries, colored).document()),
        Err(e) => Err(e),
    }
}

/// The mathematical content of the outcome of a conversion.
pub open spec fn converted(r: Result<ChartDocument, ConvertError>) -> Result<DocumentModel, ConvertError> {
    match r {
        Ok(doc) => Ok(doc@),
        Err(e) => Err(e),
    }
}

/// The mathematical content of what a row contributes.
pub open spec fn entered(r: Result<Option<(IssueRecord, Date)>, RowError>) -> Result<
    Option<(RecordModel, Date)>,
    RowError,
> {
    match r {
        Ok(Some((record, created))) => Ok(Some((record@, created))),
        Ok(None) => Ok(None),
        Err(e) => Err(e),
    }
}

/// Reads what one row contributes; `None` stands for a row that is no
/// proper record of the table.
pub fn read_entry(roles: &Vec<Option<Column>>, row: &Option<Vec<String>>) -> (r: Result<
    Option<(IssueRecord, Date)>,
    RowError,
>)
    ensures
        entered(r) == entry_of(roles@, row.deep_view(), CREATED_FORMAT@),
        r matches Ok(Some(entry)) ==> entry.1.in_calendar(),
{
    let fields = match row {
        Some(fields) => fields,
        None => {
            return Err(RowError::Malformed);
        },
    };
    let record = match parse_record(roles, fields) {
        Ok(record) => record,
        Err(e) => {
            return Err(RowError::Record(e));
        },
    };
    if record.key.as_str().is_empty() {
        return Ok(None);
    }
    match parse_created(record.created.as_str()) {
        Some(created) => Ok(Some((record, created))),
        None => Err(RowError::InvalidDate),
    }
}

/// Converts a table into a chart document.
///
/// `header` holds the names of the columns, or `None` where they are not
/// readable; each row holds its fields, or `None` where it is no proper
/// record of the table. The first row that cannot be used stops the
/// conversion, and nothing is produced.
pub fn chart_from_table(
    header: &Option<Vec<String>>,
    rows: &Vec<Option<Vec<String>>>,
    colored: bool,
) -> (r: Result<ChartDocument, ConvertError>)
    ensures
        converted(r) == chart_of(roles_of(header.deep_view()), rows.deep_view(), CREATED_FORMAT@, colored),
        r matches Ok(doc) ==> doc@.wf(),
{
    let roles = column_roles(header);
    let mut assembler = ChartAssembler::new(colored);
    let ghost table = rows.deep_view();
    let ghost mut entries: Seq<(RecordModel, Date)> = Seq::empty();
    let mut i: usize = 0;
    assert(table.take(0) =~= Seq::empty());
    while i < rows.len()
        invariant
            i <= rows.len(),
            table == rows.deep_view(),
            roles@ == roles_of(header.deep_view()),
            assembler.wf(),
            entries_of(roles@, table.take(i as int), CREATED_FORMAT@) == Ok::<_, ConvertError>(entries),
            assembler@ == assemble(entries, colored),
        decreases rows.len() - i,
    {
        proof {
            let upto = table.take(i + 1);
            assert(upto.drop_last() =~= table.take(i as int));
            assert(upto.last() == rows@[i as int].deep_view());
        }
        match read_entry(&roles, &rows[i]) {
            Err(cause) => {
                proof {
                    assert(entries_of(roles@, table.take(i + 1), CREATED_FORMAT@) == Err::<
                        Seq<(RecordModel, Date)>,
                        ConvertError,
                    >(ConvertError { row: i, cause }));
                    lemma_failure_stays(roles@, table, CREATED_FORMAT@, i + 1);
                }
                return Err(ConvertError { row: i, cause });
            },
            Ok(None) => {},
            Ok(Some((record, created))) => {
                assembler.add(&record, created);
                proof {
                    let grown = entries.push((record@, created));
                    assert(grown.drop_last() =~= entries);
                    entries = grown;
                }
            },
        }
        i += 1;
    }
    assert(table.take(i as int) =~= table);
    Ok(assembler.finish())
}

/// Keeps the fields of the rows that the reader accepted, and `None` in the
/// place of each row that it rejected.
fn accepted_rows(rows: Vec<Result<Vec<String>, Error>>) -> (table: Vec<Option<Vec<String>>>)
    ensures
        table.deep_view() == table_fields(rows@),
{
    let mut table: Vec<Option<Vec<String>>> = Vec::new();
    for row in it: rows
        invariant
            it.seq() == rows@,
            table@.len() == it.index(),
            forall|k: int| 0 <= k < table@.len() ==> (#[trigger] table@[k]).deep_view() == row_fields(rows@[k]),
    {
        match row {
            Ok(fields) => table.push(Some(fields)),
            Err(_) => table.push(None),
        }
    }
    assert(table.deep_view() =~= table_fields(rows@));
    table
}

/// Converts the bytes of an export into a chart document; `colored` tells
/// whether the resources are to get display colours.
///
/// The bytes are split into a header and rows of fields, and the table is
/// converted as [`chart_from_table`] says.
pub fn convert_export(input: &[u8], colored: bool) -> (r: Result<ChartDocument, ConvertError>)
    ensures
        converted(r) == chart_of(roles_of(csv_header(input@)), csv_rows(input@), CREATED_FORMAT@, colored),
        r matches Ok(doc) ==> doc@.wf(),
{
    let (header, rows) = read_table(input);
    let rows = accepted_rows(rows);
    chart_from_table(&header, &rows, colored)
}

/// A failure among the first `n` rows is the failure of the whole table.
pub proof fn lemma_failure_stays(
    roles: Seq<Option<Column>>,
    rows: Seq<Option<Seq<Seq<char>>>>,
    format: Seq<char>,
    n: int,
)
    requires
        0 <= n <= rows.len(),
        entries_of(roles, rows.take(n), format) is Err,
    ensures
        entries_of(roles, rows, format) == entries_of(roles, rows.take(n), format),
    decreases rows.len() - n,
{
    if n < rows.len() {
        assert(rows.take(n + 1).drop_last() =~= rows.take(n));
        lemma_failure_stays(roles, rows, format, n + 1);
    } else {
        assert(rows.take(n) =~= rows);
    }
}

} // verus!
