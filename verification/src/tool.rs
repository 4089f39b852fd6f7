//! The conversion tool and the sink for its messages.

use vstd::prelude::*;
use core::fmt::Arguments;
use crate::chart::ChartDocument;
use crate::convert::{chart_of, convert_export, converted, ConvertError};
use crate::date::CREATED_FORMAT;
use crate::record::roles_of;
use crate::table::{csv_header, csv_rows};

verus! {

/// A formatted message of `core::fmt`, passed on to the sink as it is.
#[verifier::external_type_specification]
#[verifier::external_body]
pub struct ExArguments<'a>(Arguments<'a>);

/// Where the tool sends its messages. The host implements it: a console,
/// with or without colours, or a buffer.
pub trait JiraToGanttLog {
    /// Takes ordinary output.
    fn output(&self, args: Arguments);

    /// Takes a warning.
    fn warning(&self, args: Arguments);

    /// Takes the message of a failure.
    fn error(&self, args: Arguments);
}

/// The conversion tool, bound to the sink for its messages.
pub struct JiraToGanttTool<'a, L: JiraToGanttLog + ?Sized> {
    log: &'a L,
}

impl<'a, L: JiraToGanttLog + ?Sized> JiraToGanttTool<'a, L> {
    /// The sink that the tool is bound to.
    pub closed spec fn sink(&self) -> &'a L {
        self.log
    }

    /// Makes a tool that sends its messages to `log`.
    pub fn new(log: &'a L) -> (tool: JiraToGanttTool<'a, L>)
        ensures
            tool.sink() == log,
    {
        JiraToGanttTool { log }
    }

    /// Hands out the sink that the tool is bound to.
    pub fn log(&self) -> (sink: &'a L)
        ensures
            sink == self.sink(),
    {
        self.log
    }

    /// Converts the bytes of an export into a chart document whose
    /// resources carry no colours. The conversion itself sends no message.
    pub fn read_jira_csv_file(&self, input: &[u8]) -> (r: Result<ChartDocument, ConvertError>)
        ensures
            converted(r) == chart_of(roles_of(csv_header(input@)), csv_rows(input@), CREATED_FORMAT@, false),
            r matches Ok(doc) ==> doc@.wf(),
    {
        convert_export(input, false)
    }
}

} // verus!
