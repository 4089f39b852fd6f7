use jira_to_gantt::record::{column_by_name, column_roles, parse_record, Column, IssueRecord, RecordError};

fn strings(fields: &[&str]) -> Vec<String> {
    fields.iter().map(|f| f.to_string()).collect()
}

fn usual_roles() -> Vec<Option<Column>> {
    column_roles(&Some(strings(&["Issue key", "Summary", "Status", "Assignee", "Original Estimate", "Created"])))
}

#[test]
fn columns_are_found_by_name() {
    assert_eq!(column_by_name("Issue key"), Some(Column::IssueKey));
    assert_eq!(column_by_name("Status"), Some(Column::Status));
    assert_eq!(column_by_name("Assignee"), Some(Column::Assignee));
    assert_eq!(column_by_name("Original Estimate"), Some(Column::OriginalEstimate));
    assert_eq!(column_by_name("Created"), Some(Column::Created));
}

#[test]
fn other_names_have_no_role() {
    for name in ["", "Summary", "issue key", "Issue Key", "Issue key ", " Status", "Original estimate", "Createdx"] {
        assert_eq!(column_by_name(name), None, "{:?}", name);
    }
}

#[test]
fn roles_follow_the_header() {
    assert_eq!(
        usual_roles(),
        vec![
            Some(Column::IssueKey),
            None,
            Some(Column::Status),
            Some(Column::Assignee),
            Some(Column::OriginalEstimate),
            Some(Column::Created),
        ]
    );
    assert_eq!(column_roles(&Some(vec![])), vec![]);
}

#[test]
fn roles_without_header_are_the_customary_ones() {
    assert_eq!(
        column_roles(&None),
        vec![
            Some(Column::IssueKey),
            Some(Column::Status),
            Some(Column::Assignee),
            Some(Column::OriginalEstimate),
            Some(Column::Created),
        ]
    );
}

#[test]
fn a_full_row_is_decoded() {
    let row = strings(&["KEY-1", "Fix it", "Open", "Alice", "3600", "1/Jan/23 09:00 AM"]);
    assert_eq!(
        parse_record(&usual_roles(), &row),
        Ok(IssueRecord {
            key: "KEY-1".to_string(),
            status: "Open".to_string(),
            assignee: "Alice".to_string(),
            original_estimate: Some(3600),
            created: "1/Jan/23 09:00 AM".to_string(),
        })
    );
}

#[test]
fn columns_may_come_in_any_order() {
    let roles = column_roles(&Some(strings(&["Created", "Assignee", "Issue key", "Status"])));
    let row = strings(&["when", "", "K", "Closed"]);
    assert_eq!(
        parse_record(&roles, &row),
        Ok(IssueRecord {
            key: "K".to_string(),
            status: "Closed".to_string(),
            assignee: "".to_string(),
            original_estimate: None,
            created: "when".to_string(),
        })
    );
}

#[test]
fn an_empty_estimate_is_absent() {
    let row = strings(&["KEY-2", "", "Closed", "Bob", "", "2/Jan/23 09:00 AM"]);
    assert_eq!(parse_record(&usual_roles(), &row).unwrap().original_estimate, None);
}

#[test]
fn a_bad_estimate_fails_the_row() {
    let row = strings(&["KEY-2", "", "Closed", "Bob", "soon", "2/Jan/23 09:00 AM"]);
    assert_eq!(parse_record(&usual_roles(), &row), Err(RecordError::InvalidEstimate));
}

#[test]
fn each_required_column_is_missed() {
    let all = ["Issue key", "Status", "Assignee", "Created"];
    let columns = [Column::IssueKey, Column::Status, Column::Assignee, Column::Created];
    for (skip, column) in columns.iter().enumerate() {
        let names: Vec<&str> = all.iter().enumerate().filter(|(i, _)| *i != skip).map(|(_, n)| *n).collect();
        let roles = column_roles(&Some(strings(&names)));
        let row = strings(&["a", "b", "c"]);
        assert_eq!(parse_record(&roles, &row), Err(RecordError::MissingColumn(*column)));
    }
}

#[test]
fn the_first_missing_column_is_reported() {
    let roles = column_roles(&Some(strings(&["Summary"])));
    assert_eq!(parse_record(&roles, &strings(&["x"])), Err(RecordError::MissingColumn(Column::IssueKey)));
    assert_eq!(parse_record(&vec![], &vec![]), Err(RecordError::MissingColumn(Column::IssueKey)));
}

#[test]
fn a_repeated_column_fails_the_row() {
    let roles = column_roles(&Some(strings(&["Issue key", "Status", "Status", "Assignee", "Created"])));
    let row = strings(&["K", "Open", "Open", "A", "c"]);
    assert_eq!(parse_record(&roles, &row), Err(RecordError::DuplicateColumn(Column::Status)));
}

#[test]
fn the_leftmost_failure_is_reported() {
    let roles = column_roles(&Some(strings(&["Original Estimate", "Status", "Status"])));
    assert_eq!(parse_record(&roles, &strings(&["bad", "a", "b"])), Err(RecordError::InvalidEstimate));
    assert_eq!(parse_record(&roles, &strings(&["1", "a", "b"])), Err(RecordError::DuplicateColumn(Column::Status)));
}

#[test]
fn a_short_row_lacks_fields() {
    let row = strings(&["KEY-1", "Fix it", "Open"]);
    assert_eq!(parse_record(&usual_roles(), &row), Err(RecordError::MissingField));
    let roles = column_roles(&Some(strings(&["Issue key", "Summary"])));
    assert_eq!(parse_record(&roles, &strings(&["K"])), Err(RecordError::MissingField));
}

#[test]
fn a_short_row_may_lack_the_estimate() {
    let roles = column_roles(&Some(strings(&["Issue key", "Status", "Assignee", "Created", "Original Estimate"])));
    let row = strings(&["K", "Open", "A", "c"]);
    assert_eq!(parse_record(&roles, &row).unwrap().original_estimate, None);
}

#[test]
fn fields_beyond_the_header_are_dropped() {
    let roles = column_roles(&Some(strings(&["Issue key", "Status", "Assignee", "Created"])));
    let row = strings(&["K", "Open", "A", "c", "extra", "more"]);
    assert_eq!(parse_record(&roles, &row).unwrap().key, "K");
}

#[test]
fn rows_without_header_are_read_in_customary_order() {
    let roles = column_roles(&None);
    let row = strings(&["K", "Open", "A", "60", "c", "extra"]);
    assert_eq!(
        parse_record(&roles, &row),
        Ok(IssueRecord {
            key: "K".to_string(),
            status: "Open".to_string(),
            assignee: "A".to_string(),
            original_estimate: Some(60),
            created: "c".to_string(),
        })
    );
    assert_eq!(parse_record(&roles, &strings(&["K", "Open", "A", "60"])), Err(RecordError::MissingField));
    assert_eq!(parse_record(&roles, &strings(&["K", "Open", "A", "x"])), Err(RecordError::InvalidEstimate));
}
