use todotxt::Date;
use todotxt::Input;
use todotxt::Priority;
use todotxt::State;
use todotxt::Task;

fn date(y: u32, m: u32, d: u32) -> Date {
    Date::from_ymd(y, m, d).expect("valid date")
}

#[test]
fn complete_with_dates() {
    let task = "x 2021-02-02 2021-02-01 buy milk".tasks().next().unwrap();
    assert!(task.is_complete());
    assert_eq!(task.completion_date(), Some(date(2021, 2, 2)));
    assert_eq!(task.creation_date(), Some(date(2021, 2, 1)));
    assert_eq!(task.priority(), None);
    assert_eq!(task.description(), "buy milk");
}

#[test]
fn incomplete_with_priority() {
    let task = "(A) Thank Mom for the meatballs @phone".tasks().next().unwrap();
    assert!(!task.is_complete());
    assert_eq!(task.priority(), Some(Priority::A));
    assert_eq!(task.creation_date(), None);
    assert_eq!(task.completion_date(), None);
    assert_eq!(task.description(), "Thank Mom for the meatballs @phone");
}

#[test]
fn complete_without_dates() {
    let task = "x write a +todo.txt parser in @rust".tasks().next().unwrap();
    assert!(task.is_complete());
    assert_eq!(task.completion_date(), None);
    assert_eq!(task.creation_date(), None);
    assert_eq!(task.description(), "write a +todo.txt parser in @rust");
    assert_eq!(task.state(), State::Complete(None));
}

#[test]
fn two_dates_without_marker_are_reinterpreted_as_complete() {
    let task = "2021-02-02 2021-02-01 call mom".tasks().next().unwrap();
    assert!(task.is_complete());
    assert_eq!(
        task.state(),
        State::Complete(Some((date(2021, 2, 2), date(2021, 2, 1))))
    );
    assert_eq!(task.description(), "call mom");
}

#[test]
fn plain_line_is_minimal_incomplete_task() {
    let task = "  Post signs around the neighborhood  ".tasks().next().unwrap();
    assert_eq!(task.state(), State::Incomplete(None, None));
    assert_eq!(task.description(), "Post signs around the neighborhood");
}

#[test]
fn single_date_is_creation_date() {
    let task = "2021-02-01 call mom".tasks().next().unwrap();
    assert_eq!(task.state(), State::Incomplete(None, Some(date(2021, 2, 1))));
    assert_eq!(task.description(), "call mom");
}

#[test]
fn priority_and_two_dates_stay_incomplete() {
    let task = "(B) 2021-02-02 2021-02-01 call mom".tasks().next().unwrap();
    assert_eq!(
        task.state(),
        State::Incomplete(Some(Priority::B), Some(date(2021, 2, 2)))
    );
    assert_eq!(task.description(), "call mom");
}

#[test]
fn invalid_date_falls_back_to_description() {
    let task = "x 2021-02-30 2021-02-01 fix the calendar".tasks().next().unwrap();
    assert_eq!(task.state(), State::Complete(None));
    assert_eq!(task.description(), "2021-02-30 2021-02-01 fix the calendar");
}

#[test]
fn partial_date_pair_is_discarded() {
    let task = "x 2021-02-02 buy milk".tasks().next().unwrap();
    assert_eq!(task.state(), State::Complete(None));
    assert_eq!(task.description(), "2021-02-02 buy milk");
}

#[test]
fn lowercase_priority_is_no_priority() {
    let task = "(a) not a priority".tasks().next().unwrap();
    assert_eq!(task.state(), State::Incomplete(None, None));
    assert_eq!(task.description(), "(a) not a priority");
}

#[test]
fn priority_without_space_is_no_priority() {
    let task = "(A)x".tasks().next().unwrap();
    assert_eq!(task.state(), State::Incomplete(None, None));
    assert_eq!(task.description(), "(A)x");
}

#[test]
fn marker_without_space_is_no_marker() {
    let task = "xylophone lesson".tasks().next().unwrap();
    assert_eq!(task.state(), State::Incomplete(None, None));
    assert_eq!(task.description(), "xylophone lesson");
}

#[test]
fn blank_lines_produce_no_task() {
    let data = "\n  first\n   \n\t\nsecond\n\n";
    assert_eq!(data.tasks().collect_all().len(), 2);
    let mut iter = data.tasks();
    assert_eq!(iter.next().unwrap().description(), "first");
    assert_eq!(iter.next().unwrap().description(), "second");
    assert!(iter.next().is_none());
}

#[test]
fn all_blank_input_has_no_tasks() {
    assert!("".tasks().next().is_none());
    assert!("   \n\t\n  ".tasks().next().is_none());
}

#[test]
fn forward_iteration_preserves_line_order() {
    let data = "(A) Thank Mom for the meatballs @phone\n(B) Schedule Goodwill pickup +GarageSale @phone\nPost signs around the neighborhood +GarageSale\n@GroceryStore Eskimo pies";
    let tasks = data.tasks().collect_all();
    assert_eq!(tasks.len(), 4);
    assert_eq!(tasks[0].priority(), Some(Priority::A));
    assert_eq!(tasks[1].priority(), Some(Priority::B));
    assert_eq!(tasks[2].description(), "Post signs around the neighborhood +GarageSale");
    assert_eq!(tasks[3].description(), "@GroceryStore Eskimo pies");
}

#[test]
fn reverse_iteration_yields_exact_reverse_order() {
    let data = "first\n\nsecond\n   \nthird";
    let forward = data.tasks().collect_all();
    let backward = data.tasks().collect_all_rev();
    assert_eq!(forward.len(), 3);
    assert_eq!(backward.len(), 3);
    for (i, task) in backward.iter().enumerate() {
        assert_eq!(task, &forward[forward.len() - 1 - i]);
    }
}

#[test]
fn next_back_reaches_the_back_independently() {
    let data = "first\nsecond\nthird";
    let mut iter = data.tasks();
    assert_eq!(iter.next_back().unwrap().description(), "third");
    assert_eq!(iter.next().unwrap().description(), "first");
    assert_eq!(iter.next_back().unwrap().description(), "second");
    assert!(iter.next_back().is_none());
    assert!(iter.next().is_none());
}

#[test]
fn clone_owns_an_equal_task() {
    let task = "(C) 2021-06-15 water the plants @home".tasks().next().unwrap();
    let copy = task.clone();
    assert_eq!(copy, task);
    assert_eq!(copy.description(), task.description());
    assert_eq!(copy.state(), task.state());
}

#[test]
fn render_round_trips_canonical_lines() {
    let lines = [
        "x 2021-02-02 2021-02-01 buy milk",
        "(A) Thank Mom for the meatballs @phone",
        "x write a +todo.txt parser in @rust",
        "2021-02-01 call mom",
        "Post signs around the neighborhood",
    ];
    for line in lines.iter() {
        let task = Task::parse(line);
        assert_eq!(task.render(), *line);
    }
}

#[test]
fn crlf_line_endings_are_handled() {
    let data = "first\r\nsecond\r\n";
    let tasks = data.tasks().collect_all();
    assert_eq!(tasks.len(), 2);
    assert_eq!(tasks[0].description(), "first");
    assert_eq!(tasks[1].description(), "second");
}

#[test]
fn bare_marker_is_description() {
    let task = "x".tasks().next().unwrap();
    assert_eq!(task.state(), State::Incomplete(None, None));
    assert_eq!(task.description(), "x");
}

#[test]
fn marker_alone_with_space_gives_empty_description() {
    let task = Task::parse("x ");
    assert_eq!(task.state(), State::Complete(None));
    assert_eq!(task.description(), "");
}

#[test]
fn complete_dates_need_trailing_whitespace() {
    let task = "x 2021-02-02 2021-02-01".tasks().next().unwrap();
    assert_eq!(task.state(), State::Complete(None));
    assert_eq!(task.description(), "2021-02-02 2021-02-01");
}

#[test]
fn render_of_reinterpreted_line_adds_the_marker() {
    let task = Task::parse("2021-02-02 2021-02-01 call mom");
    assert_eq!(task.render(), "x 2021-02-02 2021-02-01 call mom");
}
