//! The span of time that a set of jots covers.

use crate::date::day_number_text;
use crate::date::Date;
use vstd::prelude::*;

verus! {

/// A span of days: still open, or closed by an end date.
///
/// Nothing here asks that a closed interval end on or after its start.
#[derive(Clone, Copy, Debug, PartialEq, Eq, Structural)]
pub enum DateInterval {
    /// Begun on `start` and not yet over.
    InProgress { start: Date },
    /// Lasted from `start` to `end`, both days included.
    Complete { start: Date, end: Date },
}

impl DateInterval {
    /// The day on which the interval begins.
    pub open spec fn first_day(self) -> Date {
        match self {
            DateInterval::InProgress { start } => start,
            DateInterval::Complete { start, .. } => start,
        }
    }

    /// Whether `date` falls into the interval. An interval in progress has no
    /// upper bound: it holds every day from its start on. A complete one holds
    /// the days from its start to its end.
    pub open spec fn covers(self, date: Date) -> bool {
        match self {
            DateInterval::InProgress { start } => start@ <= date@,
            DateInterval::Complete { start, end } => start@ <= date@ <= end@,
        }
    }

    /// The interval once it has been closed on `today`: one in progress ends
    /// that day, a complete one stays as it is.
    pub open spec fn closed_on(self, today: Date) -> DateInterval {
        match self {
            DateInterval::InProgress { start } => DateInterval::Complete { start, end: today },
            DateInterval::Complete { start, end } => DateInterval::Complete { start, end },
        }
    }

    /// The line that shows the interval.
    pub open spec fn text(self) -> Seq<char> {
        match self {
            DateInterval::InProgress { start } => "In Progress, start: "@ + day_number_text(
                start@,
            ),
            DateInterval::Complete { start, end } => "Complete, start: "@ + day_number_text(start@)
                + ", end "@ + day_number_text(end@),
        }
    }

    /// The day on which the interval begins.
    pub fn start(&self) -> (r: Date)
        ensures
            r == self.first_day(),
    {
        match self {
            DateInterval::InProgress { start } => *start,
            DateInterval::Complete { start, .. } => *start,
        }
    }

    /// Whether the interval is still in progress.
    pub fn is_open(&self) -> (r: bool)
        ensures
            r == (*self is InProgress),
    {
        match self {
            DateInterval::InProgress { .. } => true,
            DateInterval::Complete { .. } => false,
        }
    }

    /// Whether `date` falls into the interval.
    pub fn contains(&self, date: Date) -> (r: bool)
        ensures
            r == self.covers(date),
    {
        match self {
            DateInterval::InProgress { start } => start.days() <= date.days(),
            DateInterval::Complete { start, end } => start.days() <= date.days() && date.days()
                <= end.days(),
        }
    }

    /// The line that shows the interval.
    pub fn to_text(&self) -> (r: String)
        ensures
            r@ == self.text(),
    {
        match self {
            DateInterval::InProgress { start } => {
                let mut line = String::from_str("In Progress, start: ");
                line.append(start.to_text().as_str());
                line
            },
            DateInterval::Complete { start, end } => {
                let mut line = String::from_str("Complete, start: ");
                line.append(start.to_text().as_str());
                line.append(", end ");
                line.append(end.to_text().as_str());
                line
            },
        }
    }
}

} // verus!
