//! Decoding of one row of the export into an issue record.
//!
//! A header row gives every column a role; a row is read from left to right,
//! each field going to the part of the record that its column stands for.

use vstd::prelude::*;
use crate::estimate::{estimate_of, parse_estimate};
use crate::text::same_text;

verus! {

/// The columns of the export that a record is made of.
#[derive(Clone, Copy, Debug, PartialEq, Eq, Structural)]
pub enum Column {
    IssueKey,
    Status,
    Assignee,
    OriginalEstimate,
    Created,
}

/// Why a row could not be decoded.
#[derive(Clone, Copy, Debug, PartialEq, Eq, Structural)]
pub enum RecordError {
    /// Two columns of the header stand for the same part of the record.
    DuplicateColumn(Column),
    /// No column of the header stands for a required part of the record.
    MissingColumn(Column),
    /// The row ends before a column that needs a field.
    MissingField,
    /// The estimate is neither empty nor a number of seconds.
    InvalidEstimate,
}

/// One issue of the export.
#[derive(Debug, PartialEq, Eq)]
pub struct IssueRecord {
    pub key: String,
    pub status: String,
    pub assignee: String,
    pub original_estimate: Option<u32>,
    pub created: String,
}

/// The mathematical content of an [`IssueRecord`].
pub struct RecordModel {
    pub key: Seq<char>,
    pub status: Seq<char>,
    pub assignee: Seq<char>,
    pub original_estimate: Option<u32>,
    pub created: Seq<char>,
}

impl View for IssueRecord {
    type V = RecordModel;

    open spec fn view(&self) -> RecordModel {
        RecordModel {
            key: self.key@,
            status: self.status@,
            assignee: self.assignee@,
            original_estimate: self.original_estimate,
            created: self.created@,
        }
    }
}

/// A record while its row is being read: each part is there once a column
/// has supplied it.
pub struct DraftModel {
    pub key: Option<Seq<char>>,
    pub status: Option<Seq<char>>,
    pub assignee: Option<Seq<char>>,
    pub original_estimate: Option<Option<u32>>,
    pub created: Option<Seq<char>>,
}

/// The role of a column, by the name in the header.
pub open spec fn column_named(name: Seq<char>) -> Option<Column> {
    if name == "Issue key"@ {
        Some(Column::IssueKey)
    } else if name == "Status"@ {
        Some(Column::Status)
    } else if name == "Assignee"@ {
        Some(Column::Assignee)
    } else if name == "Original Estimate"@ {
        Some(Column::OriginalEstimate)
    } else if name == "Created"@ {
        Some(Column::Created)
    } else {
        None
    }
}

/// The roles of the columns when the header cannot be read as text: the
/// parts of a record in their customary order.
pub open spec fn customary_roles() -> Seq<Option<Column>> {
    seq![
        Some(Column::IssueKey),
        Some(Column::Status),
        Some(Column::Assignee),
        Some(Column::OriginalEstimate),
        Some(Column::Created),
    ]
}

/// The role of every column under a header.
pub open spec fn roles_of(header: Option<Seq<Seq<char>>>) -> Seq<Option<Column>> {
    match header {
        Some(names) => names.map_values(|name: Seq<char>| column_named(name)),
        None => customary_roles(),
    }
}

/// The field of a row under column `j`, if the row reaches that far.
pub open spec fn field_at(row: Seq<Seq<char>>, j: int) -> Option<Seq<char>> {
    if 0 <= j < row.len() {
        Some(row[j])
    } else {
        None
    }
}

impl DraftModel {
    /// The draft that no column has touched.
    pub open spec fn blank() -> DraftModel {
        DraftModel { key: None, status: None, assignee: None, original_estimate: None, created: None }
    }

    /// Whether a column with this role has been read already.
    pub open spec fn has(self, column: Column) -> bool {
        match column {
            Column::IssueKey => self.key is Some,
            Column::Status => self.status is Some,
            Column::Assignee => self.assignee is Some,
            Column::OriginalEstimate => self.original_estimate is Some,
            Column::Created => self.created is Some,
        }
    }

    /// The draft after one more column. A column without a role needs a
    /// field and drops it. A role may occur once. The estimate may lack its
    /// field and is then absent; every other part needs one.
    pub open spec fn with_column(self, role: Option<Column>, field: Option<Seq<char>>) -> Result<
        DraftModel,
        RecordError,
    > {
        match role {
            None => if field is Some {
                Ok(self)
            } else {
                Err(RecordError::MissingField)
            },
            Some(column) => if self.has(column) {
                Err(RecordError::DuplicateColumn(column))
            } else if column == Column::OriginalEstimate {
                match field {
                    None => Ok(DraftModel { original_estimate: Some(None), ..self }),
                    Some(text) => match estimate_of(text) {
                        Ok(seconds) => Ok(DraftModel { original_estimate: Some(seconds), ..self }),
                        Err(_) => Err(RecordError::InvalidEstimate),
                    },
                }
            } else {
                match field {
                    None => Err(RecordError::MissingField),
                    Some(text) => Ok(
                        match column {
                            Column::IssueKey => DraftModel { key: Some(text), ..self },
                            Column::Status => DraftModel { status: Some(text), ..self },
                            Column::Assignee => DraftModel { assignee: Some(text), ..self },
                            _ => DraftModel { created: Some(text), ..self },
                        },
                    ),
                }
            },
        }
    }

    /// The record that a draft amounts to once all columns are read: the
    /// key, status, assignee and creation time must be there, in that order
    /// of complaint; an estimate that no column supplied is absent.
    pub open spec fn sealed(self) -> Result<RecordModel, RecordError> {
        if self.key is None {
            Err(RecordError::MissingColumn(Column::IssueKey))
        } else if self.status is None {
            Err(RecordError::MissingColumn(Column::Status))
        } else if self.assignee is None {
            Err(RecordError::MissingColumn(Column::Assignee))
        } else if self.created is None {
            Err(RecordError::MissingColumn(Column::Created))
        } else {
            Ok(
                RecordModel {
                    key: self.key->0,
                    status: self.status->0,
                    assignee: self.assignee->0,
                    original_estimate: match self.original_estimate {
                        Some(seconds) => seconds,
                        None => None,
                    },
                    created: self.created->0,
                },
            )
        }
    }
}

/// The draft after columns `j` and onwards have been read into `draft`, or
/// the complaint of the first column that fails.
pub open spec fn read_columns(
    roles: Seq<Option<Column>>,
    row: Seq<Seq<char>>,
    j: int,
    draft: DraftModel,
) -> Result<DraftModel, RecordError>
    decreases roles.len() - j,
{
    if j < 0 || j >= roles.len() {
        Ok(draft)
    } else {
        match draft.with_column(roles[j], field_at(row, j)) {
            Ok(next) => read_columns(roles, row, j + 1, next),
            Err(e) => Err(e),
        }
    }
}

/// The record that a row holds under the given column roles.
pub open spec fn decode_row(roles: Seq<Option<Column>>, row: Seq<Seq<char>>) -> Result<
    RecordModel,
    RecordError,
> {
    match read_columns(roles, row, 0, DraftModel::blank()) {
        Ok(draft) => draft.sealed(),
        Err(e) => Err(e),
    }
}

/// Finds the role of a column from its name in the header.
pub fn column_by_name(name: &str) -> (role: Option<Column>)
    ensures
        role == column_named(name@),
{
    if same_text(name, "Issue key") {
        Some(Column::IssueKey)
    } else if same_text(name, "Status") {
        Some(Column::Status)
    } else if same_text(name, "Assignee") {
        Some(Column::Assignee)
    } else if same_text(name, "Original Estimate") {
        Some(Column::OriginalEstimate)
    } else if same_text(name, "Created") {
        Some(Column::Created)
    } else {
        None
    }
}

/// Gives every column its role. Without a readable header the columns are
/// taken to stand in their customary order.
pub fn column_roles(header: &Option<Vec<String>>) -> (roles: Vec<Option<Column>>)
    ensures
        roles@ == roles_of(header.deep_view()),
{
    let mut roles: Vec<Option<Column>> = Vec::new();
    match header {
        Some(names) => {
            let mut j: usize = 0;
            while j < names.len()
                invariant
                    j <= names.len(),
                    roles@.len() == j,
                    forall|k: int| 0 <= k < j ==> roles@[k] == column_named(#[trigger] names@[k]@),
                decreases names.len() - j,
            {
                roles.push(column_by_name(names[j].as_str()));
                j += 1;
            }
            assert(roles@ =~= roles_of(header.deep_view()));
        },
        None => {
            roles.push(Some(Column::IssueKey));
            roles.push(Some(Column::Status));
            roles.push(Some(Column::Assignee));
            roles.push(Some(Column::OriginalEstimate));
            roles.push(Some(Column::Created));
            assert(roles@ =~= customary_roles());
        },
    }
    roles
}

/// A record while its row is being read.
struct Draft {
    key: Option<String>,
    status: Option<String>,
    assignee: Option<String>,
    original_estimate: Option<Option<u32>>,
    created: Option<String>,
}

impl View for Draft {
    type V = DraftModel;

    closed spec fn view(&self) -> DraftModel {
        DraftModel {
            key: self.key.deep_view(),
            status: self.status.deep_view(),
            assignee: self.assignee.deep_view(),
            original_estimate: self.original_estimate,
            created: self.created.deep_view(),
        }
    }
}

impl Draft {
    /// Tells whether a column with this role has been read already.
    fn has(&self, column: Column) -> (yes: bool)
        ensures
            yes == self@.has(column),
    {
        match column {
            Column::IssueKey => self.key.is_some(),
            Column::Status => self.status.is_some(),
            Column::Assignee => self.assignee.is_some(),
            Column::OriginalEstimate => self.original_estimate.is_some(),
            Column::Created => self.created.is_some(),
        }
    }

    /// Reads one more column into the draft.
    fn take_column(&mut self, role: Option<Column>, field: Option<&String>) -> (r: Result<
        (),
        RecordError,
    >)
        ensures
            match old(self)@.with_column(role, field.deep_view()) {
                Ok(next) => r is Ok && final(self)@ == next,
                Err(e) => r == Err::<(), RecordError>(e),
            },
    {
        match role {
            None => match field {
                Some(_) => Ok(()),
                None => Err(RecordError::MissingField),
            },
            Some(column) => {
                if self.has(column) {
                    return Err(RecordError::DuplicateColumn(column));
                }
                match column {
                    Column::OriginalEstimate => match field {
                        None => {
                            self.original_estimate = Some(None);
                            Ok(())
                        },
                        Some(text) => match parse_estimate(text.as_str()) {
                            Ok(seconds) => {
                                self.original_estimate = Some(seconds);
                                Ok(())
                            },
                            Err(_) => Err(RecordError::InvalidEstimate),
                        },
                    },
                    _ => match field {
                        None => Err(RecordError::MissingField),
                        Some(text) => {
                            let text: String = text.clone();
                            match column {
                                Column::IssueKey => {
                                    self.key = Some(text);
                                },
                                Column::Status => {
                                    self.status = Some(text);
                                },
                                Column::Assignee => {
                                    self.assignee = Some(text);
                                },
                                _ => {
                                    self.created = Some(text);
                                },
                            }
                            Ok(())
                        },
                    },
                }
            },
        }
    }

    /// Closes the draft once all columns are read.
    fn seal(self) -> (r: Result<IssueRecord, RecordError>)
        ensures
            decoded(r) == self@.sealed(),
    {
        let key: String = match self.key {
            Some(text) => text,
            None => {
                return Err(RecordError::MissingColumn(Column::IssueKey));
            },
        };
        let status: String = match self.status {
            Some(text) => text,
            None => {
                return Err(RecordError::MissingColumn(Column::Status));
            },
        };
        let assignee: String = match self.assignee {
            Some(text) => text,
            None => {
                return Err(RecordError::MissingColumn(Column::Assignee));
            },
        };
        let created: String = match self.created {
            Some(text) => text,
            None => {
                return Err(RecordError::MissingColumn(Column::Created));
            },
        };
        let original_estimate: Option<u32> = match self.original_estimate {
            Some(seconds) => seconds,
            None => None,
        };
        Ok(IssueRecord { key, status, assignee, original_estimate, created })
    }
}

/// The mathematical content of the outcome of decoding a row.
pub open spec fn decoded(r: Result<IssueRecord, RecordError>) -> Result<RecordModel, RecordError> {
    match r {
        Ok(record) => Ok(record@),
        Err(e) => Err(e),
    }
}

/// Decodes one row under the given column roles.
///
/// The columns are read from left to right and the first one that fails
/// decides the error; a part of the record that no column supplied is
/// reported after that, unless it is the estimate, which is then absent.
pub fn parse_record(roles: &Vec<Option<Column>>, row: &Vec<String>) -> (r: Result<
    IssueRecord,
    RecordError,
>)
    ensures
        decoded(r) == decode_row(roles@, row.deep_view()),
{
    let mut draft = Draft {
        key: None,
        status: None,
        assignee: None,
        original_estimate: None,
        created: None,
    };
    let ghost fields = row.deep_view();
    let mut j: usize = 0;
    while j < roles.len()
        invariant
            j <= roles.len(),
            fields == row.deep_view(),
            read_columns(roles@, fields, j as int, draft@) == read_columns(
                roles@,
                fields,
                0,
                DraftModel::blank(),
            ),
        decreases roles.len() - j,
    {
        let field: Option<&String> = if j < row.len() {
            Some(&row[j])
        } else {
            None
        };
        assert(field.deep_view() == field_at(fields, j as int));
        match draft.take_column(roles[j], field) {
            Ok(()) => {},
            Err(e) => {
                return Err(e);
            },
        }
        j += 1;
    }
    draft.seal()
}

} // verus!
