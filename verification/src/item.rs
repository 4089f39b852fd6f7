//! Schedulable items: one per issue.

use vstd::prelude::*;
use crate::date::Date;
use crate::record::{IssueRecord, RecordModel};
use crate::text::same_text;

verus! {

/// The length of a workday: eight hours, in seconds.
pub const SECONDS_PER_WORKDAY: u32 = 28800;

/// The quotient of `a` by `b`, rounded up.
pub open spec fn ceil_div(a: int, b: int) -> int {
    (a + b - 1) / b
}

/// The duration, in workdays, of an estimate in seconds: one second more
/// than the estimate, in whole workdays, rounded up. An estimate of zero
/// seconds takes one day, and an exact number of workdays takes one more.
pub open spec fn workdays_of(seconds: int) -> int {
    ceil_div(seconds + 1, SECONDS_PER_WORKDAY as int)
}

/// Computes the duration, in workdays, of an estimate in seconds.
pub fn workdays(seconds: u32) -> (days: i64)
    ensures
        days == workdays_of(seconds as int),
        1 <= days,
        (days - 1) * SECONDS_PER_WORKDAY <= seconds < days * SECONDS_PER_WORKDAY,
{
    (seconds / SECONDS_PER_WORKDAY) as i64 + 1
}

/// One unit of work on a chart.
#[derive(Debug, PartialEq, Eq)]
pub struct Item {
    /// The key of the issue.
    pub title: String,
    /// The day the work starts; absent where it follows the item before it
    /// on the same resource.
    pub start_date: Option<Date>,
    /// The length of the work in workdays.
    pub duration: Option<i64>,
    /// The place of the item's resource among the chart's resources.
    pub resource_index: usize,
    /// Whether the issue is still open.
    pub open: bool,
}

/// The mathematical content of an [`Item`].
pub struct ItemModel {
    pub title: Seq<char>,
    pub start_date: Option<Date>,
    pub duration: Option<int>,
    pub resource_index: int,
    pub open: bool,
}

impl View for Item {
    type V = ItemModel;

    open spec fn view(&self) -> ItemModel {
        ItemModel {
            title: self.title@,
            start_date: self.start_date,
            duration: match self.duration {
                Some(days) => Some(days as int),
                None => None,
            },
            resource_index: self.resource_index as int,
            open: self.open,
        }
    }
}

impl DeepView for Item {
    type V = ItemModel;

    open spec fn deep_view(&self) -> ItemModel {
        self@
    }
}

/// The item of a record on the resource at `resource_index`. It starts on
/// the day the issue was created if it is the first of its resource, and has
/// no start date otherwise; it is open unless the status is `Closed`.
pub open spec fn item_of(record: RecordModel, resource_index: int, first: bool, created: Date) -> ItemModel {
    ItemModel {
        title: record.key,
        start_date: if first {
            Some(created)
        } else {
            None
        },
        duration: match record.original_estimate {
            Some(seconds) => Some(workdays_of(seconds as int)),
            None => None,
        },
        resource_index,
        open: record.status != "Closed"@,
    }
}

/// Builds the item of a record on the resource at `resource_index`; `first`
/// tells whether the record is the first of that resource.
pub fn build_item(record: &IssueRecord, resource_index: usize, first: bool, created: Date) -> (item: Item)
    ensures
        item@ == item_of(record@, resource_index as int, first, created),
{
    Item {
        title: record.key.clone(),
        start_date: if first {
            Some(created)
        } else {
            None
        },
        duration: match record.original_estimate {
            Some(seconds) => Some(workdays(seconds)),
            None => None,
        },
        resource_index,
        open: !same_text(record.status.as_str(), "Closed"),
    }
}

} // verus!
