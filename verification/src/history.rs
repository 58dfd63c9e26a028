//! The history: the timeline of all sets, the current one last.

use crate::date::Date;
use crate::interval::DateInterval;
use crate::jot::jot_views;
use crate::jot::Jot;
use crate::jot::JotState;
use crate::jot_set::copy_jots;
use crate::jot_set::JotSet;
use crate::jot_set::JotSetView;
use crate::text::bullet_list;
use crate::text::bullet_list_text;
use crate::text::string_views;
use vstd::prelude::*;

verus! {

/// The views of a sequence of sets, in the same order.
pub open spec fn set_views(sets: Seq<JotSet>) -> Seq<JotSetView> {
    Seq::new(sets.len(), |i: int| sets[i]@)
}

/// The intervals of a sequence of sets, in the same order.
pub open spec fn intervals_of(sets: Seq<JotSetView>) -> Seq<DateInterval> {
    Seq::new(sets.len(), |i: int| sets[i].interval)
}

/// The shape of every history: there is at least one set, and every set but
/// the last has a complete interval. Only the last set, the current one, may
/// be in progress.
pub open spec fn well_formed(sets: Seq<JotSetView>) -> bool {
    &&& sets.len() >= 1
    &&& forall|i: int| 0 <= i < sets.len() - 1 ==> sets[i].interval is Complete
}

/// Whether `index` is the first set that is in progress without being the
/// last one.
pub open spec fn first_unclosed(sets: Seq<JotSetView>, index: int) -> bool {
    &&& 0 <= index < sets.len() - 1
    &&& sets[index].interval is InProgress
    &&& forall|k: int| 0 <= k < index ==> sets[k].interval is Complete
}

/// Whether `index` is the first set, in stored order, whose interval holds
/// `date`.
pub open spec fn first_covering(sets: Seq<JotSetView>, date: Date, index: int) -> bool {
    &&& 0 <= index < sets.len()
    &&& sets[index].interval.covers(date)
    &&& forall|k: int| 0 <= k < index ==> !sets[k].interval.covers(date)
}

/// Whether `index` is the first set, in stored order, whose interval is
/// `interval`.
pub open spec fn first_with_interval(
    sets: Seq<JotSetView>,
    interval: DateInterval,
    index: int,
) -> bool {
    &&& 0 <= index < sets.len()
    &&& sets[index].interval == interval
    &&& forall|k: int| 0 <= k < index ==> sets[k].interval != interval
}

/// Whether the sets are stored by ascending start date.
pub open spec fn starts_ascending(sets: Seq<JotSetView>) -> bool {
    forall|i: int, j: int|
        0 <= i <= j < sets.len() ==> sets[i].interval.first_day()@ <= sets[j].interval.first_day()@
}

/// The sets with the last one replaced by `set`.
pub open spec fn with_current(sets: Seq<JotSetView>, set: JotSetView) -> Seq<JotSetView>
    recommends
        sets.len() >= 1,
{
    sets.drop_last().push(set)
}

/// The sets after a roll on `today`. The last set is closed (if it was in
/// progress, it now ends today) and keeps all its jots; behind it stands a
/// new set in progress since today, which holds the jots of the closed set
/// that are not done with.
pub open spec fn rolled(sets: Seq<JotSetView>, today: Date) -> Seq<JotSetView>
    recommends
        sets.len() >= 1,
{
    let last = sets.last();
    sets.drop_last().push(
        JotSetView { jots: last.jots, interval: last.interval.closed_on(today) },
    ).push(
        JotSetView { jots: last.unfinished(), interval: DateInterval::InProgress { start: today } },
    )
}

/// What is shown of a history: its intervals as a bulleted list.
pub open spec fn history_text(sets: Seq<JotSetView>) -> Seq<char> {
    bullet_list(Seq::new(sets.len(), |i: int| sets[i].interval.text()))
}

/// Why a sequence of sets is no history.
#[derive(Clone, Copy, Debug, PartialEq, Eq, Structural)]
pub enum HistoryError {
    /// There is no set at all.
    Empty,
    /// The set at `index` is in progress, and it is not the last one.
    Unclosed { index: usize },
}

/// A sequence of sets as a history: the sequence itself where it has the
/// shape of a history, and else the reason why it has not.
pub open spec fn validated(sets: Seq<JotSetView>) -> Result<Seq<JotSetView>, HistoryError> {
    if sets.len() == 0 {
        Err(HistoryError::Empty)
    } else if exists|i: int| first_unclosed(sets, i) {
        Err(HistoryError::Unclosed { index: (choose|i: int| first_unclosed(sets, i)) as usize })
    } else {
        Ok(sets)
    }
}

/// A jot index that is no position in the current set.
#[derive(Clone, Copy, Debug, PartialEq, Eq, Structural)]
pub struct OutOfBounds {
    /// The index that was asked for.
    pub index: usize,
    /// The number of jots in the current set.
    pub len: usize,
}

/// A set that was closed and put away.
#[derive(Debug)]
struct ArchivedSet {
    jots: Vec<Jot>,
    start: Date,
    end: Date,
}

impl ArchivedSet {
    spec fn as_set(self) -> JotSetView {
        JotSetView {
            jots: jot_views(self.jots@),
            interval: DateInterval::Complete { start: self.start, end: self.end },
        }
    }

    fn interval(&self) -> (r: DateInterval)
        ensures
            r == self.as_set().interval,
    {
        DateInterval::Complete { start: self.start, end: self.end }
    }

    fn to_set(&self) -> (r: JotSet)
        ensures
            r@ == self.as_set(),
    {
        JotSet { jots: copy_jots(&self.jots), interval: self.interval() }
    }
}

spec fn archive_views(archived: Seq<ArchivedSet>) -> Seq<JotSetView> {
    Seq::new(archived.len(), |i: int| archived[i].as_set())
}

/// The full timeline of sets. The archived sets are kept apart from the
/// current one, and each of them has a start and an end: so a history cannot
/// be empty, and no set but the current one can be in progress.
#[derive(Debug)]
pub struct JotHistory {
    archived: Vec<ArchivedSet>,
    current: JotSet,
}

impl View for JotHistory {
    type V = Seq<JotSetView>;

    /// The sets in stored order, the current one last.
    closed spec fn view(&self) -> Seq<JotSetView> {
        archive_views(self.archived@).push(self.current@)
    }
}

impl JotHistory {
    /// Every history has the shape that [`well_formed`] describes.
    pub proof fn lemma_well_formed(self)
        ensures
            well_formed(self@),
    {
    }

    /// A history with one empty set, in progress since `today`.
    pub fn starting(today: Date) -> (r: JotHistory)
        ensures
            r@ == seq![
                JotSetView { jots: Seq::empty(), interval: DateInterval::InProgress { start: today } },
            ],
    {
        let r = JotHistory { archived: Vec::new(), current: JotSet::starting(today) };
        r
    }

    /// A history with one empty set, in progress since today by the system
    /// clock.
    pub fn new() -> (r: JotHistory)
        ensures
            r@.len() == 1,
            r@[0].jots.len() == 0,
            r@[0].interval is InProgress,
    {
        JotHistory::starting(Date::today())
    }

    /// A copy of the current set: the last one.
    pub fn current(&self) -> (r: JotSet)
        ensures
            r@ == self@.last(),
    {
        self.current.clone()
    }

    /// Appends `jot` to the current set. No other set changes.
    pub fn insert(&mut self, jot: Jot)
        ensures
            final(self)@ == with_current(
                old(self)@,
                JotSetView {
                    jots: old(self)@.last().jots.push(jot@),
                    interval: old(self)@.last().interval,
                },
            ),
    {
        let ghost before = self.current.jots@;
        self.current.jots.push(jot);
        assert(jot_views(self.current.jots@) =~= jot_views(before).push(jot@));
    }

    /// Puts `jot` in the place of the jot at `index` in the current set.
    /// Where the current set has no jot at `index`, nothing changes and the
    /// error says so.
    pub fn replace_jot(&mut self, jot: Jot, index: usize) -> (r: Result<(), OutOfBounds>)
        ensures
            match r {
                Ok(_) => {
                    &&& index < old(self)@.last().jots.len()
                    &&& final(self)@ == with_current(
                        old(self)@,
                        JotSetView {
                            jots: old(self)@.last().jots.update(index as int, jot@),
                            interval: old(self)@.last().interval,
                        },
                    )
                },
                Err(e) => {
                    &&& index >= old(self)@.last().jots.len()
                    &&& e == (OutOfBounds { index, len: old(self)@.last().jots.len() as usize })
                    &&& final(self)@ == old(self)@
                },
            },
    {
        let len = self.current.jots.len();
        if index >= len {
            return Err(OutOfBounds { index, len });
        }
        let ghost before = self.current.jots@;
        self.current.jots.set(index, jot);
        assert(jot_views(self.current.jots@) =~= jot_views(before).update(index as int, jot@));
        Ok(())
    }

    /// Puts `set` in the place of the current set, jots and interval. No
    /// other set changes.
    pub fn replace_current_set(&mut self, set: JotSet)
        ensures
            final(self)@ == with_current(old(self)@, set@),
    {
        self.current = set;
    }

    /// Rolls the history over on `today`: closes the current set, which
    /// keeps all its jots, and opens a new current set that starts today with
    /// copies of the jots that are not done with. A current set that was
    /// complete already keeps its interval. Returns whether the current set
    /// was still in progress, as it should be.
    pub fn roll_on(&mut self, today: Date) -> (was_open: bool)
        ensures
            final(self)@ == rolled(old(self)@, today),
            was_open == (old(self)@.last().interval is InProgress),
    {
        let was_open = self.current.interval.is_open();
        let mut set = JotSet {
            jots: self.current.non_terminal_jots(),
            interval: DateInterval::InProgress { start: today },
        };
        core::mem::swap(&mut self.current, &mut set);
        let archived = match set.interval {
            DateInterval::InProgress { start } => ArchivedSet { jots: set.jots, start, end: today },
            DateInterval::Complete { start, end } => ArchivedSet { jots: set.jots, start, end },
        };
        self.archived.push(archived);
        was_open
    }

    /// Rolls the history over on today's date by the system clock. Returns
    /// that date, and whether the current set was still in progress.
    pub fn roll(&mut self) -> (r: (Date, bool))
        ensures
            final(self)@ == rolled(old(self)@, r.0),
            r.1 == (old(self)@.last().interval is InProgress),
    {
        let today = Date::today();
        let was_open = self.roll_on(today);
        (today, was_open)
    }

    /// The place of the first set, in stored order, whose interval holds
    /// `date`.
    pub fn position_by_date(&self, date: Date) -> (r: Option<usize>)
        ensures
            match r {
                Some(index) => first_covering(self@, date, index as int),
                None => forall|i: int| 0 <= i < self@.len() ==> !self@[i].interval.covers(date),
            },
    {
        let mut i: usize = 0;
        while i < self.archived.len()
            invariant
                i <= self.archived.len(),
                forall|k: int| 0 <= k < i ==> !self@[k].interval.covers(date),
            decreases self.archived.len() - i,
        {
            if self.archived[i].interval().contains(date) {
                return Some(i);
            }
            i += 1;
        }
        if self.current.interval.contains(date) {
            Some(i)
        } else {
            None
        }
    }

    /// A copy of the set at `index`, if there is one.
    pub fn set_at(&self, index: usize) -> (r: Option<JotSet>)
        ensures
            match r {
                Some(set) => index < self@.len() && set@ == self@[index as int],
                None => index >= self@.len(),
            },
    {
        if index < self.archived.len() {
            Some(self.archived[index].to_set())
        } else if index == self.archived.len() {
            Some(self.current.clone())
        } else {
            None
        }
    }

    /// A copy of the first set, in stored order, whose interval holds `date`:
    /// an interval in progress holds every day from its start on, a complete
    /// one the days from its start to its end. `None` where no interval holds
    /// the date, as when the date lies before every start.
    pub fn find_by_date(&self, date: Date) -> (r: Option<JotSet>)
        ensures
            match r {
                Some(set) => exists|i: int| first_covering(self@, date, i) && set@ == self@[i],
                None => forall|i: int| 0 <= i < self@.len() ==> !self@[i].interval.covers(date),
            },
            (forall|i: int| 0 <= i < self@.len() ==> date@ < self@[i].interval.first_day()@)
                ==> r is None,
    {
        match self.position_by_date(date) {
            Some(index) => self.set_at(index),
            None => None,
        }
    }

    /// What is to be shown: the current set, or with a date the first set
    /// whose interval holds it, cut down to the jots whose state is one of
    /// `states` (to all of them where `states` is empty). `None` where a
    /// date is given and no interval holds it.
    pub fn select(&self, date: Option<Date>, states: Vec<JotState>) -> (r: Option<JotSet>)
        ensures
            match date {
                None => r matches Some(set) && set@ == self@.last().filtered(states@),
                Some(day) => match r {
                    Some(set) => exists|i: int|
                        first_covering(self@, day, i) && set@ == self@[i].filtered(states@),
                    None => forall|i: int|
                        0 <= i < self@.len() ==> !self@[i].interval.covers(day),
                },
            },
    {
        match date {
            None => Some(self.current.filter_by_states(states)),
            Some(day) => match self.find_by_date(day) {
                Some(set) => Some(set.filter_by_states(states)),
                None => None,
            },
        }
    }

    /// The intervals of the sets, one for each set, in stored order.
    pub fn date_intervals(&self) -> (r: Vec<DateInterval>)
        ensures
            r@ == intervals_of(self@),
    {
        let mut out: Vec<DateInterval> = Vec::new();
        let mut i: usize = 0;
        while i < self.archived.len()
            invariant
                i <= self.archived.len(),
                out@.len() == i,
                forall|k: int| 0 <= k < i ==> out@[k] == self@[k].interval,
            decreases self.archived.len() - i,
        {
            out.push(self.archived[i].interval());
            i += 1;
        }
        out.push(self.current.interval);
        out
    }

    /// Whether the sets are stored by ascending start date, as a search by
    /// date takes them to be.
    pub fn is_ascending(&self) -> (r: bool)
        ensures
            r == starts_ascending(self@),
    {
        let intervals = self.date_intervals();
        let mut i: usize = 1;
        while i < intervals.len()
            invariant
                1 <= i <= intervals.len(),
                intervals@ == intervals_of(self@),
                forall|a: int, b: int|
                    0 <= a <= b < i ==> self@[a].interval.first_day()@
                        <= self@[b].interval.first_day()@,
            decreases intervals.len() - i,
        {
            if intervals[i - 1].start().days() > intervals[i].start().days() {
                return false;
            }
            i += 1;
        }
        true
    }

    /// The place of the first set, in stored order, whose interval is
    /// `interval`.
    pub fn position_of_interval(&self, interval: DateInterval) -> (r: Option<usize>)
        ensures
            match r {
                Some(index) => first_with_interval(self@, interval, index as int),
                None => !intervals_of(self@).contains(interval),
            },
    {
        let mut i: usize = 0;
        while i < self.archived.len()
            invariant
                i <= self.archived.len(),
                forall|k: int| 0 <= k < i ==> self@[k].interval != interval,
            decreases self.archived.len() - i,
        {
            if self.archived[i].interval() == interval {
                return Some(i);
            }
            i += 1;
        }
        if self.current.interval == interval {
            Some(i)
        } else {
            None
        }
    }

    /// Copies of all the sets, in stored order, the current one last.
    pub fn sets(&self) -> (r: Vec<JotSet>)
        ensures
            set_views(r@) == self@,
    {
        let mut out: Vec<JotSet> = self.archived_sets();
        out.push(self.current.clone());
        assert(self@ =~= self@.drop_last().push(self.current@));
        out
    }

    /// Copies of the archived sets: all but the current one.
    pub fn archived_sets(&self) -> (r: Vec<JotSet>)
        ensures
            set_views(r@) == self@.drop_last(),
    {
        let mut out: Vec<JotSet> = Vec::new();
        let mut i: usize = 0;
        while i < self.archived.len()
            invariant
                i <= self.archived.len(),
                out@.len() == i,
                forall|k: int| 0 <= k < i ==> out@[k]@ == self@[k],
            decreases self.archived.len() - i,
        {
            out.push(self.archived[i].to_set());
            i += 1;
        }
        out
    }

    /// Makes a history of `sets`, which are taken in their order, the last
    /// as the current set. They are refused where there is none, or where
    /// one that is not the last is still in progress.
    pub fn from_sets(sets: Vec<JotSet>) -> (r: Result<JotHistory, HistoryError>)
        ensures
            match r {
                Ok(history) => validated(set_views(sets@)) == Ok::<Seq<JotSetView>, HistoryError>(
                    history@,
                ),
                Err(e) => validated(set_views(sets@)) == Err::<Seq<JotSetView>, HistoryError>(e),
            },
    {
        let ghost all = set_views(sets@);
        let mut rest = sets;
        let current = match rest.pop() {
            Some(set) => set,
            None => {
                return Err(HistoryError::Empty);
            },
        };
        let mut archived: Vec<ArchivedSet> = Vec::new();
        let mut i: usize = 0;
        while i < rest.len()
            invariant
                i <= rest.len(),
                all == set_views(sets@),
                all == set_views(rest@).push(current@),
                archived@.len() == i,
                forall|k: int| 0 <= k < i ==> archived@[k].as_set() == all[k],
            decreases rest.len() - i,
        {
            match rest[i].interval {
                DateInterval::Complete { start, end } => {
                    archived.push(ArchivedSet { jots: copy_jots(&rest[i].jots), start, end });
                },
                DateInterval::InProgress { .. } => {
                    proof {
                        lemma_first_unclosed_is_unique(all, i as int);
                    }
                    return Err(HistoryError::Unclosed { index: i });
                },
            }
            i += 1;
        }
        let history = JotHistory { archived, current };
        assert(history@ =~= all);
        Ok(history)
    }

    /// What is shown of the history: its intervals as a bulleted list.
    pub fn to_text(&self) -> (r: String)
        ensures
            r@ == history_text(self@),
    {
        let intervals = self.date_intervals();
        let mut lines: Vec<String> = Vec::new();
        let mut i: usize = 0;
        while i < intervals.len()
            invariant
                i <= intervals.len(),
                intervals@ == intervals_of(self@),
                lines@.len() == i,
                forall|k: int| 0 <= k < i ==> lines@[k]@ == self@[k].interval.text(),
            decreases intervals.len() - i,
        {
            lines.push(intervals[i].to_text());
            i += 1;
        }
        assert(string_views(lines@) =~= Seq::new(
            self@.len(),
            |i: int| self@[i].interval.text(),
        ));
        bullet_list_text(&lines)
    }
}

/// At most one set is the first unclosed one.
proof fn lemma_first_unclosed_is_unique(sets: Seq<JotSetView>, index: int)
    requires
        first_unclosed(sets, index),
    ensures
        exists|i: int| first_unclosed(sets, i),
        (choose|i: int| first_unclosed(sets, i)) == index,
{
}

} // verus!
