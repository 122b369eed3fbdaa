use aoide_library::tag_import::{
    parse_index_numbers, parse_year_digits, parse_year_tag, release_from_readings,
    split_tag_labels, import_faceted_tags, CalendarDate, DateOrDateTime, Index,
};
use aoide_library::text::{split_str, trim_str};

fn strings(values: &[&str]) -> Vec<String> {
    values.iter().map(|v| v.to_string()).collect()
}

#[test]
fn trims_whitespace_on_both_ends() {
    assert_eq!("Pop", trim_str("  Pop \t"));
    assert_eq!("", trim_str(" \n "));
    assert_eq!("a b", trim_str("a b"));
}

#[test]
fn splits_at_each_occurrence_of_the_separator() {
    assert_eq!(strings(&["Pop", "Hip-Hop/Rap", "Nu Metal"]), split_str("Pop;Hip-Hop/Rap;Nu Metal", ";"));
    assert_eq!(strings(&["", "a", ""]), split_str(";a;", ";"));
    assert_eq!(strings(&["a", "b"]), split_str("a::b", "::"));
    assert_eq!(strings(&["abc"]), split_str("abc", ";"));
}

#[test]
fn multiple_genres_in_one_field() {
    let labels = split_tag_labels(&strings(&["Pop;Hip-Hop/Rap;Nu Metal"]), Some(";"));
    assert_eq!(strings(&["Pop", "Hip-Hop/Rap", "Nu Metal"]), labels);
}

#[test]
fn labels_are_trimmed_and_empty_pieces_left_out() {
    let labels = split_tag_labels(&strings(&[" Pop ; ;Rock ", "Jazz"]), Some(";"));
    assert_eq!(strings(&["Pop", "Rock", "Jazz"]), labels);
}

#[test]
fn without_separator_each_value_is_one_label() {
    assert_eq!(strings(&["Pop;Rock"]), split_tag_labels(&strings(&["Pop;Rock"]), None));
    assert_eq!(strings(&["Pop;Rock"]), split_tag_labels(&strings(&["Pop;Rock"]), Some("")));
    assert_eq!(Vec::<String>::new(), split_tag_labels(&strings(&["  "]), None));
}

#[test]
fn a_value_of_separators_only_is_kept_whole() {
    assert_eq!(strings(&[";"]), import_faceted_tags(";", Some(";")));
}

#[test]
fn year_tags_of_digits() {
    assert_eq!(Some(20200000), parse_year_digits("2020"));
    assert_eq!(Some(20200700), parse_year_digits(" 202007 "));
    assert_eq!(Some(20200731), parse_year_digits("20200731"));
    assert_eq!(None, parse_year_digits("20200732"));
    assert_eq!(None, parse_year_digits("202"));
    assert_eq!(None, parse_year_digits("20201"));
    assert_eq!(None, parse_year_digits("0000"));
}

#[test]
fn year_tags_with_dashes() {
    assert_eq!(Some(20200700), parse_year_digits("2020-07"));
    assert_eq!(Some(20200700), parse_year_digits("2020 - 7"));
    assert_eq!(Some(20200731), parse_year_digits("2020-07-31"));
    assert_eq!(Some(20200229), parse_year_digits("2020-02-29"));
    assert_eq!(None, parse_year_digits("2019-02-29"));
    assert_eq!(None, parse_year_digits("2020-13"));
    assert_eq!(None, parse_year_digits("2020-07-32"));
    assert_eq!(None, parse_year_digits("2020-007"));
    assert_eq!(None, parse_year_digits("2020-07-31x"));
}

#[test]
fn index_numbers() {
    assert_eq!(Some(Index { number: Some(3), total: None }), parse_index_numbers("3"));
    assert_eq!(Some(Index { number: Some(3), total: Some(12) }), parse_index_numbers(" 3 / 12 "));
    assert_eq!(Some(Index { number: None, total: Some(12) }), parse_index_numbers("/12"));
    assert_eq!(None, parse_index_numbers("a/b"));
    assert_eq!(None, parse_index_numbers(""));
}

#[test]
fn year_tags_with_time_of_day() {
    assert_eq!(
        Some(DateOrDateTime::DateTime {
            date: CalendarDate { year: 2020, month: 7, day: 31 },
            hour: 12,
            minute: 30,
            second: 5,
            nanosecond: 0,
            offset_seconds: 7200
        }),
        parse_year_tag("2020-07-31T12:30:05+02:00")
    );
    assert_eq!(
        Some(DateOrDateTime::DateTime {
            date: CalendarDate { year: 2020, month: 7, day: 31 },
            hour: 12,
            minute: 30,
            second: 5,
            nanosecond: 0,
            offset_seconds: 0
        }),
        parse_year_tag("2020-07-31T12:30:05")
    );
    assert_eq!(
        Some(DateOrDateTime::Date(CalendarDate { year: 2020, month: 7, day: 0 })),
        parse_year_tag("2020-07")
    );
    assert_eq!(None, parse_year_tag("July 2020"));
}

#[test]
fn digits_take_precedence_over_other_readings() {
    let other = Some(DateOrDateTime::Date(CalendarDate { year: 1, month: 1, day: 1 }));
    assert_eq!(
        Some(DateOrDateTime::Date(CalendarDate { year: 2020, month: 7, day: 31 })),
        release_from_readings(Some(20200731), other, None)
    );
    assert_eq!(other, release_from_readings(None, other, None));
    assert_eq!(other, release_from_readings(None, None, other));
}
