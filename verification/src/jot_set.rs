//! A set of jots: the jots that were active during one interval.

use crate::date::Date;
use crate::interval::DateInterval;
use crate::jot::jot_views;
use crate::jot::Jot;
use crate::jot::JotState;
use crate::jot::JotView;
use crate::text::bullet_list;
use crate::text::bullet_list_text;
use crate::text::string_views;
use vstd::prelude::*;

verus! {

/// The jots of one interval, in the order in which they were added.
#[derive(Debug)]
pub struct JotSet {
    pub jots: Vec<Jot>,
    pub interval: DateInterval,
}

/// What a set is, mathematically: the sequence of its jots and its interval.
pub struct JotSetView {
    pub jots: Seq<JotView>,
    pub interval: DateInterval,
}

/// The test that keeps the jots that are not done with.
pub open spec fn is_unfinished() -> spec_fn(JotView) -> bool {
    |jot: JotView| !jot.terminal()
}

/// The test that keeps the jots whose state is one of `states`.
pub open spec fn has_state_in(states: Seq<JotState>) -> spec_fn(JotView) -> bool {
    |jot: JotView| states.contains(jot.state)
}

/// The lines that show the jots of a sequence.
pub open spec fn jot_lines(jots: Seq<JotView>) -> Seq<Seq<char>> {
    Seq::new(jots.len(), |i: int| jots[i].text())
}

impl JotSetView {
    /// The jots that are not done with, in their order.
    pub open spec fn unfinished(self) -> Seq<JotView> {
        self.jots.filter(is_unfinished())
    }

    /// The set cut down to the jots whose state is one of `states`, in their
    /// order. No state at all means no filter: the set comes back whole.
    pub open spec fn filtered(self, states: Seq<JotState>) -> JotSetView {
        if states.len() == 0 {
            self
        } else {
            JotSetView { jots: self.jots.filter(has_state_in(states)), interval: self.interval }
        }
    }

    /// Whether `index` is the first place at which `jot` stands in the set.
    pub open spec fn first_at(self, jot: JotView, index: int) -> bool {
        &&& 0 <= index < self.jots.len()
        &&& self.jots[index] == jot
        &&& forall|k: int| 0 <= k < index ==> self.jots[k] != jot
    }

    /// The text that shows the set: a title line with the interval, then the
    /// jots as a bulleted list.
    pub open spec fn text(self) -> Seq<char> {
        "Jots: "@ + self.interval.text() + "\n"@ + bullet_list(jot_lines(self.jots))
    }
}

impl View for JotSet {
    type V = JotSetView;

    open spec fn view(&self) -> JotSetView {
        JotSetView { jots: jot_views(self.jots@), interval: self.interval }
    }
}

impl Clone for JotSet {
    fn clone(&self) -> (r: JotSet)
        ensures
            r@ == self@,
    {
        let jots = copy_jots(&self.jots);
        JotSet { jots, interval: self.interval }
    }
}

impl Default for JotSet {
    /// An empty set in progress, begun today by the system clock.
    fn default() -> (r: JotSet)
        ensures
            r@.jots.len() == 0,
            r@.interval is InProgress,
    {
        JotSet::starting(Date::today())
    }
}

/// A copy of `jots`.
pub(crate) fn copy_jots(jots: &Vec<Jot>) -> (r: Vec<Jot>)
    ensures
        jot_views(r@) == jot_views(jots@),
{
    let mut out: Vec<Jot> = Vec::new();
    let mut i: usize = 0;
    while i < jots.len()
        invariant
            i <= jots.len(),
            out@.len() == i,
            forall|k: int| 0 <= k < i ==> out@[k]@ == jots@[k]@,
        decreases jots.len() - i,
    {
        out.push(jots[i].clone());
        i += 1;
    }
    out
}

/// Whether `state` is one of `states`.
fn state_in(states: &Vec<JotState>, state: JotState) -> (r: bool)
    ensures
        r == states@.contains(state),
{
    let mut i: usize = 0;
    while i < states.len()
        invariant
            i <= states.len(),
            forall|k: int| 0 <= k < i ==> states@[k] != state,
        decreases states.len() - i,
    {
        if states[i] == state {
            return true;
        }
        i += 1;
    }
    false
}

impl JotSet {
    /// An empty set in progress since `start`.
    pub fn starting(start: Date) -> (r: JotSet)
        ensures
            r@ == (JotSetView {
                jots: Seq::empty(),
                interval: DateInterval::InProgress { start },
            }),
    {
        let r = JotSet { jots: Vec::new(), interval: DateInterval::InProgress { start } };
        assert(r@.jots =~= Seq::empty());
        r
    }

    /// Copies of the jots that are not done with, in their order.
    pub fn non_terminal_jots(&self) -> (r: Vec<Jot>)
        ensures
            jot_views(r@) == self@.unfinished(),
    {
        let ghost all = jot_views(self.jots@);
        let mut out: Vec<Jot> = Vec::new();
        let mut i: usize = 0;
        while i < self.jots.len()
            invariant
                i <= self.jots.len(),
                all == jot_views(self.jots@),
                jot_views(out@) == all.take(i as int).filter(is_unfinished()),
            decreases self.jots.len() - i,
        {
            proof {
                all.lemma_take_succ_push(i as int);
                all.take(i as int).lemma_filter_push(all[i as int], is_unfinished());
            }
            if !self.jots[i].is_terminal() {
                out.push(self.jots[i].clone());
            }
            i += 1;
        }
        assert(all.take(i as int) == all);
        out
    }

    /// A copy of the set that keeps only the jots whose state is one of
    /// `states`, in their order and under the same interval. With no state
    /// given, the copy holds every jot.
    pub fn filter_by_states(&self, states: Vec<JotState>) -> (r: JotSet)
        ensures
            r@ == self@.filtered(states@),
    {
        if states.len() == 0 {
            return self.clone();
        }
        let ghost all = jot_views(self.jots@);
        let ghost keep = has_state_in(states@);
        let mut out: Vec<Jot> = Vec::new();
        let mut i: usize = 0;
        while i < self.jots.len()
            invariant
                i <= self.jots.len(),
                all == jot_views(self.jots@),
                keep == has_state_in(states@),
                jot_views(out@) == all.take(i as int).filter(keep),
            decreases self.jots.len() - i,
        {
            proof {
                all.lemma_take_succ_push(i as int);
                all.take(i as int).lemma_filter_push(all[i as int], keep);
            }
            if state_in(&states, self.jots[i].state) {
                out.push(self.jots[i].clone());
            }
            i += 1;
        }
        assert(all.take(i as int) == all);
        JotSet { jots: out, interval: self.interval }
    }

    /// The first place at which a jot equal to `jot` stands in the set.
    pub fn position_of(&self, jot: &Jot) -> (r: Option<usize>)
        ensures
            match r {
                Some(index) => self@.first_at(jot@, index as int),
                None => !self@.jots.contains(jot@),
            },
    {
        let mut i: usize = 0;
        while i < self.jots.len()
            invariant
                i <= self.jots.len(),
                forall|k: int| 0 <= k < i ==> self@.jots[k] != jot@,
            decreases self.jots.len() - i,
        {
            if self.jots[i] == *jot {
                return Some(i);
            }
            i += 1;
        }
        None
    }

    /// The text that shows the set.
    pub fn to_text(&self) -> (r: String)
        ensures
            r@ == self@.text(),
    {
        let mut lines: Vec<String> = Vec::new();
        let mut i: usize = 0;
        while i < self.jots.len()
            invariant
                i <= self.jots.len(),
                lines@.len() == i,
                forall|k: int| 0 <= k < i ==> lines@[k]@ == self@.jots[k].text(),
            decreases self.jots.len() - i,
        {
            lines.push(self.jots[i].to_text());
            i += 1;
        }
        assert(string_views(lines@) =~= jot_lines(self@.jots));
        let mut out = String::from_str("Jots: ");
        out.append(self.interval.to_text().as_str());
        out.append("\n");
        out.append(bullet_list_text(&lines).as_str());
        out
    }
}

} // verus!
