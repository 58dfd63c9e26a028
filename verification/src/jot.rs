//! Jots and their lifecycle states.

use vstd::prelude::*;

verus! {

/// Where a jot stands in its life.
#[derive(Clone, Copy, Debug, PartialEq, Eq, Structural)]
pub enum JotState {
    Completed,
    Removed,
    InProgress,
    Failed,
    NotStarted,
}

impl JotState {
    /// A terminal state is one of `Completed`, `Removed` and `Failed`: the jot
    /// is done with and stays behind when the history is rolled.
    pub open spec fn terminal(self) -> bool {
        self is Completed || self is Removed || self is Failed
    }

    /// The name under which the state is shown.
    pub open spec fn label_text(self) -> Seq<char> {
        match self {
            JotState::Completed => "Completed"@,
            JotState::Removed => "Removed"@,
            JotState::InProgress => "In Progress"@,
            JotState::Failed => "Failed"@,
            JotState::NotStarted => "Not Started"@,
        }
    }

    /// Whether the state is terminal.
    pub fn is_terminal(&self) -> (r: bool)
        ensures
            r == self.terminal(),
    {
        match self {
            JotState::Completed | JotState::Removed | JotState::Failed => true,
            JotState::InProgress | JotState::NotStarted => false,
        }
    }

    /// The name under which the state is shown.
    pub fn label(&self) -> (r: &'static str)
        ensures
            r@ == self.label_text(),
    {
        match self {
            JotState::Completed => "Completed",
            JotState::Removed => "Removed",
            JotState::InProgress => "In Progress",
            JotState::Failed => "Failed",
            JotState::NotStarted => "Not Started",
        }
    }

    /// The five states, in the order in which they are offered for choice.
    pub fn all() -> (r: Vec<JotState>)
        ensures
            r@ == seq![
                JotState::Completed,
                JotState::Removed,
                JotState::InProgress,
                JotState::Failed,
                JotState::NotStarted,
            ],
    {
        let mut states: Vec<JotState> = Vec::new();
        states.push(JotState::Completed);
        states.push(JotState::Removed);
        states.push(JotState::InProgress);
        states.push(JotState::Failed);
        states.push(JotState::NotStarted);
        states
    }

    /// The state a new jot gets: the one that was chosen, or `NotStarted`
    /// where the choice was skipped.
    pub fn chosen_or_default(choice: Option<JotState>) -> (r: JotState)
        ensures
            r == match choice {
                Some(state) => state,
                None => JotState::NotStarted,
            },
    {
        match choice {
            Some(state) => state,
            None => JotState::NotStarted,
        }
    }
}

/// One recorded item: a line of text and its state.
#[derive(Debug)]
pub struct Jot {
    pub content: String,
    pub state: JotState,
}

/// What a jot is, mathematically: its characters and its state.
pub struct JotView {
    pub content: Seq<char>,
    pub state: JotState,
}

impl JotView {
    /// Whether the jot's state is terminal.
    pub open spec fn terminal(self) -> bool {
        self.state.terminal()
    }

    /// The line that shows the jot: its content, a colon and a space, and the
    /// name of its state.
    pub open spec fn text(self) -> Seq<char> {
        self.content + ": "@ + self.state.label_text()
    }
}

impl View for Jot {
    type V = JotView;

    open spec fn view(&self) -> JotView {
        JotView { content: self.content@, state: self.state }
    }
}

/// The views of a sequence of jots, in the same order.
pub open spec fn jot_views(jots: Seq<Jot>) -> Seq<JotView> {
    Seq::new(jots.len(), |i: int| jots[i]@)
}

impl Clone for Jot {
    fn clone(&self) -> (r: Jot)
        ensures
            r@ == self@,
    {
        Jot { content: self.content.clone(), state: self.state }
    }
}

impl PartialEq for Jot {
    /// Two jots are equal when their contents and their states are.
    fn eq(&self, other: &Jot) -> (r: bool) {
        self.content == other.content && self.state == other.state
    }
}

impl Eq for Jot {

}

impl vstd::std_specs::cmp::PartialEqSpecImpl for Jot {
    open spec fn obeys_eq_spec() -> bool {
        true
    }

    open spec fn eq_spec(&self, other: &Jot) -> bool {
        self.content@ == other.content@ && self.state == other.state
    }
}

impl Jot {
    /// A jot with the given content and state.
    pub fn new(content: String, state: JotState) -> (r: Jot)
        ensures
            r@ == (JotView { content: content@, state }),
    {
        Jot { content, state }
    }

    /// Whether the jot is done with: its state is terminal.
    pub fn is_terminal(&self) -> (r: bool)
        ensures
            r == self@.terminal(),
    {
        self.state.is_terminal()
    }

    /// The line that shows the jot.
    pub fn to_text(&self) -> (r: String)
        ensures
            r@ == self@.text(),
    {
        let mut line = self.content.clone();
        line.append(": ");
        line.append(self.state.label());
        line
    }
}

} // verus!
