//! A journal of short notes ("jots"), grouped into dated sets.
//!
//! Each jot carries a lifecycle state. The history is a timeline of sets: the
//! last one is the current set, every earlier one is archived with a closed
//! interval. Rolling the history closes the current set and opens a new one
//! that carries the unfinished jots forward.

pub mod calendar;
pub mod date;
pub mod history;
pub mod interval;
pub mod jot;
pub mod jot_set;
pub mod text;
pub mod theorems;

pub use date::Date;
pub use history::HistoryError;
pub use history::JotHistory;
pub use history::OutOfBounds;
pub use interval::DateInterval;
pub use jot::Jot;
pub use jot::JotState;
pub use jot::JotView;
pub use jot_set::JotSet;
pub use jot_set::JotSetView;
