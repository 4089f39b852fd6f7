use core::fmt::Arguments;
use jira_to_gantt::convert::{convert_export, ConvertError, RowError};
use jira_to_gantt::{JiraToGanttLog, JiraToGanttTool};
use std::cell::RefCell;

struct Capture {
    lines: RefCell<Vec<String>>,
}

impl JiraToGanttLog for Capture {
    fn output(&self, args: Arguments) {
        self.lines.borrow_mut().push(format!("{}", args));
    }
    fn warning(&self, args: Arguments) {
        self.lines.borrow_mut().push(format!("warning: {}", args));
    }
    fn error(&self, args: Arguments) {
        self.lines.borrow_mut().push(format!("error: {}", args));
    }
}

#[test]
fn the_tool_keeps_its_sink() {
    let capture = Capture { lines: RefCell::new(vec![]) };
    let tool = JiraToGanttTool::new(&capture);
    assert!(std::ptr::eq(tool.log(), &capture));
}

#[test]
fn the_tool_takes_a_sink_of_unknown_type() {
    let capture = Capture { lines: RefCell::new(vec![]) };
    let sink: &dyn JiraToGanttLog = &capture;
    let tool = JiraToGanttTool::new(sink);
    assert!(tool.read_jira_csv_file(b"").unwrap().items.is_empty());
}

#[test]
fn the_tool_converts_without_colours_and_without_messages() {
    let capture = Capture { lines: RefCell::new(vec![]) };
    let tool = JiraToGanttTool::new(&capture);
    let input = b"Issue key,Status,Assignee,Created\nK1,Open,Alice,1/Jan/23 09:00 AM\nK2,Open,,1/Jan/23 09:00 AM\n";
    let doc = tool.read_jira_csv_file(input).unwrap();
    assert_eq!(doc, convert_export(input, false).unwrap());
    assert_eq!(doc.resources[0].color, None);
    assert_eq!(doc.resources[1].title, "unassigned");
    assert!(capture.lines.borrow().is_empty());
}

#[test]
fn the_tool_reports_the_failing_row() {
    let capture = Capture { lines: RefCell::new(vec![]) };
    let tool = JiraToGanttTool::new(&capture);
    let input = b"Issue key,Status,Assignee,Created\nK1,Open,Alice,tomorrow\n";
    assert_eq!(tool.read_jira_csv_file(input), Err(ConvertError { row: 0, cause: RowError::InvalidDate }));
    assert!(capture.lines.borrow().is_empty());
}
