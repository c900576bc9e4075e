use todotxt::Date;
use todotxt::Priority;

#[test]
fn priority_ordering_is_inverse_alphabetical() {
    assert!(Priority::A > Priority::B);
    assert!(Priority::B < Priority::A);
    assert!(Priority::A == Priority::A);
    assert!(Priority::A > Priority::Z);
    assert!(Priority::Z < Priority::M);
    assert!(Priority::C >= Priority::C);
    assert!(Priority::Y > Priority::Z);
}

#[test]
fn priority_letters() {
    assert_eq!(Priority::A.letter(), 'A');
    assert_eq!(Priority::Z.letter(), 'Z');
}

#[test]
fn priority_parse_accepts_only_wrapped_upper_case_letters() {
    assert_eq!(Priority::parse("(A) x", 0), Some((Priority::A, 3)));
    assert_eq!(Priority::parse("x (Z)", 2), Some((Priority::Z, 5)));
    assert_eq!(Priority::parse("(a)", 0), None);
    assert_eq!(Priority::parse("(1)", 0), None);
    assert_eq!(Priority::parse("A)", 0), None);
    assert_eq!(Priority::parse("(A", 0), None);
    assert_eq!(Priority::parse("", 0), None);
}

#[test]
fn dates_must_exist_on_the_calendar() {
    assert!(Date::from_ymd(2021, 2, 2).is_some());
    assert!(Date::from_ymd(2020, 2, 29).is_some());
    assert!(Date::from_ymd(2000, 2, 29).is_some());
    assert!(Date::from_ymd(2021, 2, 29).is_none());
    assert!(Date::from_ymd(1900, 2, 29).is_none());
    assert!(Date::from_ymd(2023, 4, 31).is_none());
    assert!(Date::from_ymd(2023, 0, 1).is_none());
    assert!(Date::from_ymd(2023, 13, 1).is_none());
    assert!(Date::from_ymd(2023, 1, 0).is_none());
    assert!(Date::from_ymd(10000, 1, 1).is_none());
}

#[test]
fn date_fields_are_kept() {
    let d = Date::from_ymd(2021, 6, 15).unwrap();
    assert_eq!(d.year, 2021);
    assert_eq!(d.month, 6);
    assert_eq!(d.day, 15);
}

#[test]
fn date_renders_zero_padded() {
    assert_eq!(Date::from_ymd(2021, 2, 2).unwrap().render(), "2021-02-02");
    assert_eq!(Date::from_ymd(987, 12, 31).unwrap().render(), "0987-12-31");
    assert_eq!(Date::from_ymd(5, 1, 9).unwrap().render(), "0005-01-09");
}

#[test]
fn date_parse_round_trips_the_canonical_form() {
    let samples = [(2021u32, 2u32, 2u32), (2020, 2, 29), (1999, 12, 31), (0, 1, 1), (9999, 12, 31)];
    for (y, m, d) in samples.iter() {
        let date = Date::from_ymd(*y, *m, *d).unwrap();
        let rendered = date.render();
        assert_eq!(rendered.len(), 10);
        let parsed = todotxt::date::parse_date(&rendered, 0);
        assert_eq!(parsed, Some((date, 10)));
        assert_eq!(parsed.unwrap().0.render(), rendered);
    }
}

#[test]
fn date_parse_rejects_malformed_tokens() {
    assert_eq!(todotxt::date::parse_date("2021-2-02x", 0), None);
    assert_eq!(todotxt::date::parse_date("2021/02/02", 0), None);
    assert_eq!(todotxt::date::parse_date("2021-02", 0), None);
    assert_eq!(todotxt::date::parse_date("abcd-ef-gh", 0), None);
    assert_eq!(todotxt::date::parse_date("2021-02-30", 0), None);
}
