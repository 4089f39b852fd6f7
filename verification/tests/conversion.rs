use jira_to_gantt::chart::ChartDocument;
use jira_to_gantt::convert::{chart_from_table, convert_export, read_entry, ConvertError, RowError};
use jira_to_gantt::date::Date;
use jira_to_gantt::item::Item;
use jira_to_gantt::record::{column_roles, Column, RecordError};
use jira_to_gantt::registry::{palette_color, Resource};

const HEADER: &str = "Issue key,Summary,Status,Assignee,Original Estimate,Created\n";

fn strings(fields: &[&str]) -> Vec<String> {
    fields.iter().map(|f| f.to_string()).collect()
}

fn export(rows: &[&str]) -> Vec<u8> {
    let mut text = String::from(HEADER);
    for row in rows {
        text.push_str(row);
        text.push('\n');
    }
    text.into_bytes()
}

fn keys(doc: &ChartDocument) -> Vec<&str> {
    doc.items.iter().map(|i| i.title.as_str()).collect()
}

fn titles(doc: &ChartDocument) -> Vec<&str> {
    doc.resources.iter().map(|r| r.title.as_str()).collect()
}

#[test]
fn empty_input_gives_an_empty_chart() {
    let doc = convert_export(b"", false).unwrap();
    assert_eq!(
        doc,
        ChartDocument { title: String::new(), marked_date: None, resources: vec![], items: vec![] }
    );
}

#[test]
fn a_header_alone_gives_an_empty_chart() {
    assert!(convert_export(HEADER.as_bytes(), false).unwrap().items.is_empty());
    assert!(convert_export(b"nothing,we,know\n", false).unwrap().items.is_empty());
}

#[test]
fn three_issues_of_two_assignees() {
    let input = "Issue key,Status,Assignee,Original Estimate,Created\n\
                 KEY-1,Open,Alice,3600,1/Jan/23 09:00 AM\n\
                 KEY-2,Closed,Bob,,2/Jan/23 09:00 AM\n\
                 KEY-3,Open,Alice,28800,3/Jan/23 09:00 AM\n";
    let doc = convert_export(input.as_bytes(), false).unwrap();
    assert_eq!(
        doc,
        ChartDocument {
            title: String::new(),
            marked_date: None,
            resources: vec![
                Resource { title: "Alice".to_string(), color: None },
                Resource { title: "Bob".to_string(), color: None },
            ],
            items: vec![
                Item {
                    title: "KEY-1".to_string(),
                    start_date: Some(Date { year: 2023, month: 1, day: 1 }),
                    duration: Some(1),
                    resource_index: 0,
                    open: true,
                },
                Item { title: "KEY-3".to_string(), start_date: None, duration: Some(2), resource_index: 0, open: true },
                Item {
                    title: "KEY-2".to_string(),
                    start_date: Some(Date { year: 2023, month: 1, day: 2 }),
                    duration: None,
                    resource_index: 1,
                    open: false,
                },
            ],
        }
    );
}

#[test]
fn colours_are_given_on_request() {
    let input = export(&["K1,,Open,Alice,,1/Jan/23 09:00 AM", "K2,,Open,,,1/Jan/23 09:00 AM"]);
    let doc = convert_export(&input, true).unwrap();
    assert_eq!(
        doc.resources,
        vec![
            Resource { title: "Alice".to_string(), color: Some(palette_color(0)) },
            Resource { title: "unassigned".to_string(), color: Some(palette_color(1)) },
        ]
    );
    let plain = convert_export(&input, false).unwrap();
    assert_eq!(titles(&plain), vec!["Alice", "unassigned"]);
    assert_eq!(plain.items, doc.items);
}

#[test]
fn rows_with_an_empty_key_are_passed_over() {
    let with = export(&[
        "K1,,Open,Alice,,1/Jan/23 09:00 AM",
        ",,Open,Zed,60,2/Jan/23 09:00 AM",
        "K2,,Open,Bob,,3/Jan/23 09:00 AM",
        ",,Open,Alice,,4/Jan/23 09:00 AM",
    ]);
    let without = export(&["K1,,Open,Alice,,1/Jan/23 09:00 AM", "K2,,Open,Bob,,3/Jan/23 09:00 AM"]);
    let doc = convert_export(&with, true).unwrap();
    assert_eq!(titles(&doc), vec!["Alice", "Bob"]);
    assert_eq!(keys(&doc), vec!["K1", "K2"]);
    assert_eq!(doc, convert_export(&without, true).unwrap());
}

#[test]
fn a_row_with_an_empty_key_is_passed_over_before_its_date_is_read() {
    let input = export(&[",,Open,Alice,,not a date", "K1,,Open,Alice,,1/Jan/23 09:00 AM"]);
    let doc = convert_export(&input, false).unwrap();
    assert_eq!(keys(&doc), vec!["K1"]);
    assert_eq!(doc.items[0].start_date, Some(Date { year: 2023, month: 1, day: 1 }));
}

#[test]
fn a_row_with_an_empty_key_must_still_decode() {
    let input = export(&[",,Open,Alice,soon,1/Jan/23 09:00 AM"]);
    assert_eq!(
        convert_export(&input, false),
        Err(ConvertError { row: 0, cause: RowError::Record(RecordError::InvalidEstimate) })
    );
}

#[test]
fn an_unreadable_date_stops_the_conversion() {
    let input = export(&["K1,,Open,Alice,,1/Jan/23 09:00 AM", "K2,,Open,Bob,,2023-01-02"]);
    assert_eq!(convert_export(&input, false), Err(ConvertError { row: 1, cause: RowError::InvalidDate }));
}

#[test]
fn a_bad_estimate_stops_the_conversion() {
    let input = export(&["K1,,Open,Alice,1h,1/Jan/23 09:00 AM"]);
    assert_eq!(
        convert_export(&input, false),
        Err(ConvertError { row: 0, cause: RowError::Record(RecordError::InvalidEstimate) })
    );
}

#[test]
fn a_missing_column_stops_the_conversion_at_the_first_row() {
    let input = b"Issue key,Status,Created\nK1,Open,1/Jan/23 09:00 AM\nK2,Open,1/Jan/23 09:00 AM\n";
    assert_eq!(
        convert_export(input, false),
        Err(ConvertError { row: 0, cause: RowError::Record(RecordError::MissingColumn(Column::Assignee)) })
    );
}

#[test]
fn a_repeated_column_stops_the_conversion() {
    let input = b"Issue key,Status,Assignee,Created,Assignee\nK1,Open,A,1/Jan/23 09:00 AM,B\n";
    assert_eq!(
        convert_export(input, false),
        Err(ConvertError { row: 0, cause: RowError::Record(RecordError::DuplicateColumn(Column::Assignee)) })
    );
}

#[test]
fn a_row_of_another_length_stops_the_conversion() {
    let input = export(&["K1,,Open,Alice,,1/Jan/23 09:00 AM", "K2,,Open,Bob", "K3,,Open,Bob,,1/Jan/23 09:00 AM"]);
    assert_eq!(convert_export(&input, false), Err(ConvertError { row: 1, cause: RowError::Malformed }));
}

#[test]
fn the_first_failing_row_decides() {
    let input = export(&["K1,,Open,Alice,,never", "K2,,Open,Bob", "K3,,Open,Bob,x,1/Jan/23 09:00 AM"]);
    assert_eq!(convert_export(&input, false), Err(ConvertError { row: 0, cause: RowError::InvalidDate }));
    let input = export(&["K1,,Open,Alice,,1/Jan/23 09:00 AM", "K3,,Open,Bob,x,1/Jan/23 09:00 AM", "K2,,Open,Bob"]);
    assert_eq!(
        convert_export(&input, false),
        Err(ConvertError { row: 1, cause: RowError::Record(RecordError::InvalidEstimate) })
    );
}

#[test]
fn the_optional_estimate_column_may_be_missing() {
    let input = b"Issue key,Status,Assignee,Created\nK1,Open,A,5/Jan/23 09:00 AM\n";
    let doc = convert_export(input, false).unwrap();
    assert_eq!(doc.items[0].duration, None);
    assert_eq!(doc.items[0].start_date, Some(Date { year: 2023, month: 1, day: 5 }));
}

#[test]
fn quoted_fields_are_unquoted() {
    let input = export(&["K1,\"a, b\",Open,\"Smith, Al\",60,\"1/Jan/23 09:00 AM\"", "K2,\"say \"\"hi\"\"\",Open,\"Smith, Al\",,1/Jan/23 09:00 AM"]);
    let doc = convert_export(&input, false).unwrap();
    assert_eq!(titles(&doc), vec!["Smith, Al"]);
    assert_eq!(keys(&doc), vec!["K1", "K2"]);
}

#[test]
fn bytes_that_are_no_text_are_replaced_in_rows() {
    let mut input = HEADER.as_bytes().to_vec();
    input.extend_from_slice(b"K1,,Open,Al\xFFce,,1/Jan/23 09:00 AM\n");
    let doc = convert_export(&input, false).unwrap();
    assert_eq!(titles(&doc), vec!["Al\u{FFFD}ce"]);
}

#[test]
fn a_header_that_is_no_text_leaves_the_customary_order() {
    let input = b"Issue key,St\xFFtus,Assignee,Original Estimate,Created\nK1,Closed,Alice,28800,1/Jan/23 09:00 AM\n";
    let doc = convert_export(input, false).unwrap();
    assert_eq!(titles(&doc), vec!["Alice"]);
    assert_eq!(doc.items[0].duration, Some(2));
    assert!(!doc.items[0].open);
    let shuffled = b"Created,St\xFFtus,Assignee,Original Estimate,Issue key\n1/Jan/23 09:00 AM,Closed,Alice,28800,K1\n";
    assert_eq!(convert_export(shuffled, false), Err(ConvertError { row: 0, cause: RowError::InvalidDate }));
}

#[test]
fn an_entry_is_a_record_with_its_date() {
    let roles = column_roles(&Some(strings(&["Issue key", "Status", "Assignee", "Created"])));
    let (record, created) =
        read_entry(&roles, &Some(strings(&["K", "Open", "A", "9/Feb/21 01:00 PM"]))).unwrap().unwrap();
    assert_eq!(record.key, "K");
    assert_eq!(created, Date { year: 2021, month: 2, day: 9 });
}

#[test]
fn an_entry_can_be_nothing_or_a_failure() {
    let roles = column_roles(&Some(strings(&["Issue key", "Status", "Assignee", "Created"])));
    assert_eq!(read_entry(&roles, &Some(strings(&["", "Open", "A", "?"]))), Ok(None));
    assert_eq!(read_entry(&roles, &Some(strings(&["K", "Open", "A", "?"]))), Err(RowError::InvalidDate));
    assert_eq!(read_entry(&roles, &Some(strings(&["K", "Open"]))), Err(RowError::Record(RecordError::MissingField)));
    assert_eq!(read_entry(&roles, &None), Err(RowError::Malformed));
}

#[test]
fn a_table_is_converted_like_an_export() {
    let header = Some(strings(&["Issue key", "Status", "Assignee", "Original Estimate", "Created"]));
    let rows = vec![
        Some(strings(&["KEY-1", "Open", "Alice", "3600", "1/Jan/23 09:00 AM"])),
        Some(strings(&["KEY-2", "Closed", "Bob", "", "2/Jan/23 09:00 AM"])),
        Some(strings(&["KEY-3", "Open", "Alice", "28800", "3/Jan/23 09:00 AM"])),
    ];
    let input = "Issue key,Status,Assignee,Original Estimate,Created\n\
                 KEY-1,Open,Alice,3600,1/Jan/23 09:00 AM\n\
                 KEY-2,Closed,Bob,,2/Jan/23 09:00 AM\n\
                 KEY-3,Open,Alice,28800,3/Jan/23 09:00 AM\n";
    assert_eq!(chart_from_table(&header, &rows, false), convert_export(input.as_bytes(), false));
    assert_eq!(keys(&chart_from_table(&header, &rows, true).unwrap()), vec!["KEY-1", "KEY-3", "KEY-2"]);
}

#[test]
fn a_rejected_row_of_a_table_stops_the_conversion() {
    let header = Some(strings(&["Issue key", "Status", "Assignee", "Created"]));
    let rows = vec![Some(strings(&["K", "Open", "A", "1/Jan/23 09:00 AM"])), None];
    assert_eq!(chart_from_table(&header, &rows, false), Err(ConvertError { row: 1, cause: RowError::Malformed }));
}
