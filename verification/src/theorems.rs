//! What holds of histories and sets, whatever their contents.
//!
//! The theorems speak of the mathematical model: sequences of set views, as
//! the functions of the library change them.

use crate::date::Date;
use crate::history::first_covering;
use crate::history::first_unclosed;
use crate::history::rolled;
use crate::history::starts_ascending;
use crate::history::validated;
use crate::history::well_formed;
use crate::history::with_current;
use crate::history::HistoryError;
use crate::history::JotHistory;
use crate::interval::DateInterval;
use crate::jot::JotState;
use crate::jot::JotView;
use crate::jot_set::has_state_in;
use crate::jot_set::is_unfinished;
use crate::jot_set::JotSetView;
use vstd::prelude::*;
use vstd::seq_lib::to_multiset_build;

verus! {

/// Whether `part` lies in `whole` at the places `at`: the places ascend, and
/// at each of them `whole` holds the item that `part` holds in turn.
pub open spec fn lies_in<A>(part: Seq<A>, whole: Seq<A>, at: Seq<int>) -> bool {
    &&& at.len() == part.len()
    &&& forall|k: int|
        0 <= k < at.len() ==> 0 <= #[trigger] at[k] < whole.len() && part[k] == whole[at[k]]
    &&& forall|k: int, l: int| 0 <= k < l < at.len() ==> at[k] < at[l]
}

/// A filter keeps the order: what it leaves lies in the sequence at
/// ascending places.
pub proof fn lemma_filter_keeps_order<A>(items: Seq<A>, keep: spec_fn(A) -> bool) -> (at: Seq<int>)
    ensures
        lies_in(items.filter(keep), items, at),
    decreases items.len(),
{
    reveal(Seq::filter);
    if items.len() == 0 {
        Seq::empty()
    } else {
        let earlier = lemma_filter_keeps_order(items.drop_last(), keep);
        if keep(items.last()) {
            earlier.push(items.len() - 1)
        } else {
            earlier
        }
    }
}

/// A filter neither makes nor loses anything: an item that passes the test
/// is left as often as it stood in the sequence, and one that fails it is
/// not left at all.
pub proof fn lemma_filter_keeps_count<A>(items: Seq<A>, keep: spec_fn(A) -> bool, item: A)
    ensures
        items.filter(keep).to_multiset().count(item) == if keep(item) {
            items.to_multiset().count(item)
        } else {
            0
        },
    decreases items.len(),
{
    reveal(Seq::filter);
    if items.len() == 0 {
        items.to_multiset_ensures();
    } else {
        let earlier = items.drop_last();
        lemma_filter_keeps_count(earlier, keep, item);
        assert(items =~= earlier.push(items.last()));
        to_multiset_build(earlier, items.last());
        if keep(items.last()) {
            to_multiset_build(earlier.filter(keep), items.last());
        }
    }
}

/// A roll makes the history longer by exactly one set. The new current set
/// is in progress since the day of the roll. The set that was current keeps
/// its jots, all of them, and is closed; the sets before it stay as they
/// were.
pub proof fn lemma_roll_appends_one_set(sets: Seq<JotSetView>, today: Date)
    requires
        sets.len() >= 1,
    ensures
        rolled(sets, today).len() == sets.len() + 1,
        rolled(sets, today).last().interval == (DateInterval::InProgress { start: today }),
        rolled(sets, today)[sets.len() - 1].jots == sets.last().jots,
        rolled(sets, today)[sets.len() - 1].interval == sets.last().interval.closed_on(today),
        rolled(sets, today)[sets.len() - 1].interval is Complete,
        forall|i: int| 0 <= i < sets.len() - 1 ==> rolled(sets, today)[i] == sets[i],
{
}

/// A roll leaves the shape of a history intact: only the last set may be in
/// progress, before the roll and after it.
pub proof fn lemma_roll_keeps_shape(sets: Seq<JotSetView>, today: Date)
    requires
        well_formed(sets),
    ensures
        well_formed(rolled(sets, today)),
{
}

/// A roll takes every jot that is not done with into the new current set:
/// in the order it had, unchanged, and as often as it stood in the set that
/// was current. A jot in a terminal state does not go along: it is left in
/// the closed set only.
pub proof fn lemma_roll_carries_unfinished(sets: Seq<JotSetView>, today: Date, jot: JotView) -> (at:
    Seq<int>)
    requires
        sets.len() >= 1,
    ensures
        lies_in(rolled(sets, today).last().jots, sets.last().jots, at),
        forall|i: int|
            0 <= i < rolled(sets, today).last().jots.len() ==> !rolled(
                sets,
                today,
            ).last().jots[i].terminal(),
        rolled(sets, today).last().jots.to_multiset().count(jot) == if jot.terminal() {
            0
        } else {
            sets.last().jots.to_multiset().count(jot)
        },
{
    let keep = is_unfinished();
    let before = sets.last().jots;
    let after = before.filter(keep);
    lemma_filter_keeps_count(before, keep, jot);
    assert forall|i: int| 0 <= i < after.len() implies !after[i].terminal() by {
        before.lemma_filter_pred(keep, i);
    }
    lemma_filter_keeps_order(before, keep)
}

/// A roll keeps the sets in the order of their start dates, if the day of
/// the roll is not before the day on which the current set began.
pub proof fn lemma_roll_keeps_ascending(sets: Seq<JotSetView>, today: Date)
    requires
        sets.len() >= 1,
        starts_ascending(sets),
        sets.last().interval.first_day()@ <= today@,
    ensures
        starts_ascending(rolled(sets, today)),
{
}

/// Changing the jots of the current set keeps the sets in the order of their
/// start dates: only a change of interval can disturb it.
pub proof fn lemma_same_interval_keeps_ascending(sets: Seq<JotSetView>, set: JotSetView)
    requires
        sets.len() >= 1,
        starts_ascending(sets),
        set.interval == sets.last().interval,
    ensures
        starts_ascending(with_current(sets, set)),
{
}

/// Changing the current set leaves the shape of a history intact, whatever
/// is put in its place.
pub proof fn lemma_new_current_keeps_shape(sets: Seq<JotSetView>, set: JotSetView)
    requires
        well_formed(sets),
    ensures
        well_formed(with_current(sets, set)),
        with_current(sets, set).len() == sets.len(),
        with_current(sets, set).last() == set,
        forall|i: int| 0 <= i < sets.len() - 1 ==> with_current(sets, set)[i] == sets[i],
{
}

/// Filtering by no state at all changes nothing: neither the jots nor the
/// interval.
pub proof fn lemma_filter_by_no_state(set: JotSetView)
    ensures
        set.filtered(Seq::empty()) == set,
{
}

/// Filtering by some states leaves exactly the jots whose state is one of
/// them: each as often as it stood in the set, in the order they had, under
/// the same interval.
pub proof fn lemma_filter_by_states(set: JotSetView, states: Seq<JotState>, jot: JotView) -> (at:
    Seq<int>)
    requires
        states.len() > 0,
    ensures
        set.filtered(states).interval == set.interval,
        lies_in(set.filtered(states).jots, set.jots, at),
        forall|i: int|
            0 <= i < set.filtered(states).jots.len() ==> states.contains(
                set.filtered(states).jots[i].state,
            ),
        set.filtered(states).jots.to_multiset().count(jot) == if states.contains(jot.state) {
            set.jots.to_multiset().count(jot)
        } else {
            0
        },
{
    let keep = has_state_in(states);
    let after = set.jots.filter(keep);
    lemma_filter_keeps_count(set.jots, keep, jot);
    assert forall|i: int| 0 <= i < after.len() implies states.contains(after[i].state) by {
        set.jots.lemma_filter_pred(keep, i);
    }
    lemma_filter_keeps_order(set.jots, keep)
}

/// There is at most one first set whose interval holds a date: a search by
/// date has one answer.
pub proof fn lemma_first_covering_is_unique(sets: Seq<JotSetView>, date: Date, i: int, j: int)
    requires
        first_covering(sets, date, i),
        first_covering(sets, date, j),
    ensures
        i == j,
{
}

/// A date that lies before the start of every set is in none of them.
pub proof fn lemma_no_set_before_every_start(sets: Seq<JotSetView>, date: Date)
    requires
        forall|i: int| 0 <= i < sets.len() ==> date@ < sets[i].interval.first_day()@,
    ensures
        forall|i: int| 0 <= i < sets.len() ==> !sets[i].interval.covers(date),
        forall|i: int| !first_covering(sets, date, i),
{
}

/// The sets of a history make a history again, and the same one: taking a
/// history apart and putting it together loses nothing.
pub proof fn lemma_sets_of_history_are_valid(history: JotHistory)
    ensures
        validated(history@) == Ok::<Seq<JotSetView>, HistoryError>(history@),
{
    history.lemma_well_formed();
}

/// Exactly the sequences that have the shape of a history are accepted as
/// one, and they are taken as they are.
pub proof fn lemma_valid_means_well_formed(sets: Seq<JotSetView>)
    ensures
        validated(sets) is Ok <==> well_formed(sets),
        validated(sets) is Ok ==> validated(sets) == Ok::<Seq<JotSetView>, HistoryError>(sets),
{
    if well_formed(sets) {
        assert forall|i: int| !first_unclosed(sets, i) by {}
    } else if sets.len() >= 1 {
        let bad = choose|i: int| 0 <= i < sets.len() - 1 && !(sets[i].interval is Complete);
        lemma_has_first_unclosed(sets, bad);
    }
}

/// Where a set before the last is in progress, one of them is the first.
proof fn lemma_has_first_unclosed(sets: Seq<JotSetView>, bad: int)
    requires
        0 <= bad < sets.len() - 1,
        sets[bad].interval is InProgress,
    ensures
        exists|i: int| first_unclosed(sets, i),
    decreases bad,
{
    if forall|k: int| 0 <= k < bad ==> sets[k].interval is Complete {
        assert(first_unclosed(sets, bad));
    } else {
        let earlier = choose|k: int| 0 <= k < bad && !(sets[k].interval is Complete);
        lemma_has_first_unclosed(sets, earlier);
    }
}

} // verus!
