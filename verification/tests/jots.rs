use jot_history::Date;
use jot_history::DateInterval;
use jot_history::Jot;
use jot_history::JotSet;
use jot_history::JotState;

fn jot(content: &str, state: JotState) -> Jot {
    Jot::new(content.to_string(), state)
}

fn set_of(jots: Vec<Jot>) -> JotSet {
    JotSet { jots, interval: DateInterval::InProgress { start: Date::from_ymd(2024, 1, 1).unwrap() } }
}

fn mixed() -> JotSet {
    set_of(vec![
        jot("buy milk", JotState::NotStarted),
        jot("ship report", JotState::Completed),
        jot("call home", JotState::InProgress),
        jot("old plan", JotState::Removed),
        jot("fix bike", JotState::Failed),
        jot("buy milk", JotState::NotStarted),
    ])
}

#[test]
fn three_states_are_terminal() {
    assert!(JotState::Completed.is_terminal());
    assert!(JotState::Removed.is_terminal());
    assert!(JotState::Failed.is_terminal());
    assert!(!JotState::InProgress.is_terminal());
    assert!(!JotState::NotStarted.is_terminal());
}

#[test]
fn a_jot_is_terminal_when_its_state_is() {
    for state in JotState::all() {
        assert_eq!(jot("x", state).is_terminal(), state.is_terminal());
    }
    assert!(jot("done", JotState::Completed).is_terminal());
    assert!(!jot("open", JotState::NotStarted).is_terminal());
}

#[test]
fn states_have_their_names() {
    assert_eq!(JotState::Completed.label(), "Completed");
    assert_eq!(JotState::Removed.label(), "Removed");
    assert_eq!(JotState::InProgress.label(), "In Progress");
    assert_eq!(JotState::Failed.label(), "Failed");
    assert_eq!(JotState::NotStarted.label(), "Not Started");
}

#[test]
fn the_states_are_offered_in_a_fixed_order() {
    assert_eq!(
        JotState::all(),
        vec![
            JotState::Completed,
            JotState::Removed,
            JotState::InProgress,
            JotState::Failed,
            JotState::NotStarted,
        ]
    );
}

#[test]
fn a_skipped_choice_of_state_means_not_started() {
    assert_eq!(JotState::chosen_or_default(None), JotState::NotStarted);
    assert_eq!(JotState::chosen_or_default(Some(JotState::Failed)), JotState::Failed);
    assert_eq!(JotState::chosen_or_default(Some(JotState::NotStarted)), JotState::NotStarted);
}

#[test]
fn jots_are_equal_when_content_and_state_are() {
    assert_eq!(jot("buy milk", JotState::NotStarted), jot("buy milk", JotState::NotStarted));
    assert_ne!(jot("buy milk", JotState::NotStarted), jot("buy milk", JotState::Completed));
    assert_ne!(jot("buy milk", JotState::NotStarted), jot("buy bread", JotState::NotStarted));
    assert_ne!(jot("", JotState::NotStarted), jot(" ", JotState::NotStarted));
}

#[test]
fn a_copy_of_a_jot_is_equal_to_it() {
    let first = jot("buy milk", JotState::InProgress);
    let copy = first.clone();
    assert_eq!(copy, first);
    assert_eq!(copy.content, "buy milk");
    assert_eq!(copy.state, JotState::InProgress);
}

#[test]
fn a_jot_is_shown_with_its_state() {
    assert_eq!(jot("buy milk", JotState::NotStarted).to_text(), "buy milk: Not Started");
    assert_eq!(jot("ship report", JotState::Completed).to_text(), "ship report: Completed");
    assert_eq!(jot("", JotState::InProgress).to_text(), ": In Progress");
}

#[test]
fn the_unfinished_jots_keep_their_order() {
    assert_eq!(
        mixed().non_terminal_jots(),
        vec![
            jot("buy milk", JotState::NotStarted),
            jot("call home", JotState::InProgress),
            jot("buy milk", JotState::NotStarted),
        ]
    );
}

#[test]
fn a_set_of_finished_jots_has_no_unfinished_ones() {
    let set = set_of(vec![jot("a", JotState::Completed), jot("b", JotState::Failed)]);
    assert_eq!(set.non_terminal_jots(), Vec::<Jot>::new());
    assert_eq!(set_of(vec![]).non_terminal_jots(), Vec::<Jot>::new());
}

#[test]
fn filtering_by_no_state_gives_the_whole_set() {
    let set = mixed();
    let same = set.filter_by_states(vec![]);
    assert_eq!(same.jots, set.jots);
    assert_eq!(same.interval, set.interval);
}

#[test]
fn filtering_by_states_keeps_the_matching_jots_in_order() {
    let set = mixed();
    let kept = set.filter_by_states(vec![JotState::NotStarted, JotState::Failed]);
    assert_eq!(
        kept.jots,
        vec![
            jot("buy milk", JotState::NotStarted),
            jot("fix bike", JotState::Failed),
            jot("buy milk", JotState::NotStarted),
        ]
    );
    assert_eq!(kept.interval, set.interval);
}

#[test]
fn filtering_by_one_state_keeps_only_that_state() {
    let kept = mixed().filter_by_states(vec![JotState::Completed]);
    assert_eq!(kept.jots, vec![jot("ship report", JotState::Completed)]);
}

#[test]
fn filtering_by_a_state_given_twice_does_not_double_the_jots() {
    let kept = mixed().filter_by_states(vec![JotState::Removed, JotState::Removed]);
    assert_eq!(kept.jots, vec![jot("old plan", JotState::Removed)]);
}

#[test]
fn filtering_by_a_state_that_no_jot_has_gives_an_empty_set() {
    let set = set_of(vec![jot("a", JotState::Completed)]);
    let kept = set.filter_by_states(vec![JotState::Failed]);
    assert_eq!(kept.jots, Vec::<Jot>::new());
    assert_eq!(kept.interval, set.interval);
}

#[test]
fn filtering_by_all_states_gives_the_whole_set() {
    let set = mixed();
    assert_eq!(set.filter_by_states(JotState::all()).jots, set.jots);
}

#[test]
fn filtering_leaves_the_set_itself_alone() {
    let set = mixed();
    let _ = set.filter_by_states(vec![JotState::Completed]);
    let _ = set.non_terminal_jots();
    assert_eq!(set.jots, mixed().jots);
}

#[test]
fn a_jot_is_found_at_its_first_place() {
    let set = mixed();
    assert_eq!(set.position_of(&jot("buy milk", JotState::NotStarted)), Some(0));
    assert_eq!(set.position_of(&jot("call home", JotState::InProgress)), Some(2));
    assert_eq!(set.position_of(&jot("fix bike", JotState::Failed)), Some(4));
}

#[test]
fn a_jot_that_is_not_in_the_set_is_not_found() {
    let set = mixed();
    assert_eq!(set.position_of(&jot("buy milk", JotState::Completed)), None);
    assert_eq!(set.position_of(&jot("nothing", JotState::NotStarted)), None);
    assert_eq!(set_of(vec![]).position_of(&jot("buy milk", JotState::NotStarted)), None);
}

#[test]
fn a_copy_of_a_set_has_the_same_jots_and_interval() {
    let set = mixed();
    let copy = set.clone();
    assert_eq!(copy.jots, set.jots);
    assert_eq!(copy.interval, set.interval);
}

#[test]
fn a_new_set_is_empty_and_in_progress() {
    let start = Date::from_ymd(2024, 1, 1).unwrap();
    let set = JotSet::starting(start);
    assert_eq!(set.jots, Vec::<Jot>::new());
    assert_eq!(set.interval, DateInterval::InProgress { start });
}

#[test]
fn the_default_set_starts_today() {
    let before = Date::today();
    let set = JotSet::default();
    let after = Date::today();
    assert_eq!(set.jots, Vec::<Jot>::new());
    assert!(set.interval.is_open());
    assert!(before.days() <= set.interval.start().days());
    assert!(set.interval.start().days() <= after.days());
}

#[test]
fn a_set_is_shown_with_a_title_and_a_line_for_each_jot() {
    let set = set_of(vec![
        jot("buy milk", JotState::NotStarted),
        jot("ship report", JotState::Completed),
    ]);
    assert_eq!(
        set.to_text(),
        "Jots: In Progress, start: 2024-01-01\n- buy milk: Not Started\n- ship report: Completed"
    );
}

#[test]
fn an_empty_set_is_shown_as_its_title_and_an_empty_line() {
    assert_eq!(set_of(vec![]).to_text(), "Jots: In Progress, start: 2024-01-01\n");
}

#[test]
fn a_set_of_one_jot_is_shown_without_a_trailing_line_feed() {
    let set = JotSet {
        jots: vec![jot("buy milk", JotState::Failed)],
        interval: DateInterval::Complete {
            start: Date::from_ymd(2024, 1, 1).unwrap(),
            end: Date::from_ymd(2024, 1, 8).unwrap(),
        },
    };
    assert_eq!(set.to_text(), "Jots: Complete, start: 2024-01-01, end 2024-01-08\n- buy milk: Failed");
}
