use todotxt::Input;
use todotxt::next_word_boundary;
use todotxt::Tag;

#[test]
fn context_and_project_tags_are_found() {
    let task = "x write a +todo.txt parser in @rust".tasks().next().unwrap();
    let description = task.description().to_owned();
    let tags = task.tags().to_vec();
    assert_eq!(tags.len(), 2);
    assert!(matches!(tags[0], Tag::Project { .. }));
    assert_eq!(tags[0].slice_of(&description), "+todo.txt");
    assert_eq!(tags[0].start(), 8);
    assert_eq!(tags[0].end(), 17);
    assert!(matches!(tags[1], Tag::Context { .. }));
    assert_eq!(tags[1].slice_of(&description), "@rust");
    assert_eq!(tags[1].start(), 28);
    assert_eq!(tags[1].end(), 33);
}

#[test]
fn context_tag_spans_the_whole_word() {
    let task = "(A) Thank Mom for the meatballs @phone".tasks().next().unwrap();
    let tags = task.tags().to_vec();
    assert_eq!(tags, vec![Tag::Context { start: 28, end: 34 }]);
}

#[test]
fn special_tag_needs_a_colon() {
    let task = "water flowers due:2021-06-15 soon".tasks().next().unwrap();
    let description = task.description().to_owned();
    let tags = task.tags().to_vec();
    assert_eq!(tags.len(), 1);
    assert!(matches!(tags[0], Tag::Special { .. }));
    assert_eq!(tags[0].slice_of(&description), "due:2021-06-15");
}

#[test]
fn context_takes_precedence_over_special() {
    let task = "call @foo:bar now".tasks().next().unwrap();
    let description = task.description().to_owned();
    let tags = task.tags().to_vec();
    assert_eq!(tags.len(), 1);
    assert!(matches!(tags[0], Tag::Context { .. }));
    assert_eq!(tags[0].slice_of(&description), "@foo:bar");
}

#[test]
fn project_takes_precedence_over_special() {
    let task = "ship +release:final today".tasks().next().unwrap();
    let tags = task.tags().to_vec();
    assert_eq!(tags.len(), 1);
    assert!(matches!(tags[0], Tag::Project { .. }));
}

#[test]
fn plain_words_are_no_tags() {
    let task = "nothing to see here".tasks().next().unwrap();
    assert_eq!(task.tags().to_vec(), vec![]);
}

#[test]
fn tags_iterate_lazily() {
    let task = "a @one b +two c:d".tasks().next().unwrap();
    let mut tags = task.tags();
    assert!(matches!(tags.next(), Some(Tag::Context { start: 2, end: 6 })));
    assert!(matches!(tags.next(), Some(Tag::Project { start: 9, end: 13 })));
    assert!(matches!(tags.next(), Some(Tag::Special { start: 14, end: 17 })));
    assert!(tags.next().is_none());
    assert!(tags.next().is_none());
}

#[test]
fn iterating_tags_twice_yields_identical_sequences() {
    let task = "x write a +todo.txt parser in @rust due:soon".tasks().next().unwrap();
    let first = task.tags().to_vec();
    let second = task.tags().to_vec();
    assert_eq!(first, second);
    assert_eq!(first.len(), 3);
}

#[test]
fn multibyte_characters_count_as_single_positions() {
    let task = "héllo @café now".tasks().next().unwrap();
    let description = task.description().to_owned();
    let tags = task.tags().to_vec();
    assert_eq!(tags.len(), 1);
    assert_eq!(tags[0].start(), 6);
    assert_eq!(tags[0].end(), 11);
    assert_eq!(tags[0].slice_of(&description), "@café");
}

#[test]
fn word_boundaries_skip_whitespace() {
    assert_eq!(next_word_boundary("  hello  world", 0), Some((2, 7)));
    assert_eq!(next_word_boundary("  hello  world", 7), Some((9, 14)));
    assert_eq!(next_word_boundary("  hello  world", 14), None);
    assert_eq!(next_word_boundary("   ", 0), None);
}

#[test]
fn whitespace_classification() {
    assert!(todotxt::is_whitespace(' '));
    assert!(todotxt::is_whitespace('\t'));
    assert!(todotxt::is_whitespace('\n'));
    assert!(!todotxt::is_whitespace('a'));
    assert!(todotxt::is_not_whitespace('@'));
    assert!(!todotxt::is_not_whitespace('\r'));
}
