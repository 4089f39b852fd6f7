//! Conversion of issue-tracker CSV exports into Gantt chart documents.
//!
//! The crate takes the bytes of a comma-separated export, decodes each row
//! into an issue record, assigns every assignee a resource lane and builds
//! the chart document that a Gantt renderer consumes.

pub mod chart;
pub mod convert;
pub mod date;
pub mod estimate;
pub mod item;
pub mod laws;
pub mod record;
pub mod registry;
pub mod table;
pub mod text;
pub mod tool;

pub use tool::{JiraToGanttLog, JiraToGanttTool};
