use movement::parse::{blank, count_seconds, find, find_blank, holds_pm, to_chars};
use movement::numeral::parse_field;
use movement::Watch;

#[test]
fn hours_minutes_and_seconds_are_weighted() {
    assert_eq!(Watch::str_to_secs("01:23:45", false), 5025);
    assert_eq!(Watch::str_to_secs("0:23:03", false), 1383);
    assert_eq!(Watch::str_to_secs("23:44:03", false), 85443);
}

#[test]
fn missing_fields_count_as_zero() {
    assert_eq!(Watch::str_to_secs("13:34", true), 48840);
    assert_eq!(Watch::str_to_secs("7", true), 25200);
    assert_eq!(Watch::str_to_secs("", true), 0);
    assert_eq!(Watch::str_to_secs(":", true), 0);
    assert_eq!(Watch::str_to_secs("::9", true), 9);
    assert_eq!(Watch::str_to_secs("5:", true), 18000);
}

#[test]
fn malformed_fields_count_as_zero() {
    assert_eq!(Watch::str_to_secs("abc:10", false), 600);
    assert_eq!(Watch::str_to_secs("1x:10:05", false), 605);
    assert_eq!(Watch::str_to_secs("1:1 0:05", false), 3660);
    assert_eq!(Watch::str_to_secs("1:+:5", false), 3605);
    assert_eq!(Watch::str_to_secs("1:-:5", false), 3605);
    assert_eq!(Watch::str_to_secs("1:1_0:5", false), 3605);
    assert_eq!(Watch::str_to_secs("1:\u{0661}:5", false), 3605);
}

#[test]
fn fields_after_the_third_are_ignored() {
    assert_eq!(Watch::str_to_secs("1:2:3:4", false), 3723);
    assert_eq!(Watch::str_to_secs("1:2:3:xyz", false), 3723);
}

#[test]
fn signed_fields_are_read() {
    assert_eq!(Watch::str_to_secs("-1:30", false), -1800);
    assert_eq!(Watch::str_to_secs("+2:00", false), 7200);
    assert_eq!(Watch::str_to_secs("0:-90:-1", false), -5401);
}

#[test]
fn hours_are_not_bounded_by_the_day() {
    assert_eq!(Watch::str_to_secs("24:00:00", true), 86400);
    assert_eq!(Watch::str_to_secs("100:99:99", false), 366039);
}

#[test]
fn only_the_text_before_the_first_white_space_holds_fields() {
    assert_eq!(Watch::str_to_secs(" 5:00", true), 0);
    assert_eq!(Watch::str_to_secs("5:00 6:00", true), 18000);
    assert_eq!(Watch::str_to_secs("5:00\tPM", true), 61200);
    assert_eq!(Watch::str_to_secs("5:\t00", true), 18000);
}

#[test]
fn pm_adds_twelve_hours_to_a_time_of_day() {
    assert_eq!(Watch::str_to_secs("01:33:23 PM", true), 48803);
    assert_eq!(Watch::str_to_secs("01:33:23 pm", true), 48803);
    assert_eq!(Watch::str_to_secs("01:33:23 p.m.", true), 48803);
    assert_eq!(Watch::str_to_secs("01:33:23 P.M.", true), 48803);
    assert_eq!(Watch::str_to_secs("01:33:23 Pm", true), 48803);
    assert_eq!(Watch::str_to_secs("01:33:23 p...m", true), 48803);
    assert_eq!(Watch::str_to_secs("12:00 PM", true), 86400);
}

#[test]
fn pm_means_nothing_in_a_time_span() {
    assert_eq!(Watch::str_to_secs("01:33:23 PM", false), 5603);
    assert_eq!(Watch::str_to_secs("01:33:23 p.m.", false), 5603);
}

#[test]
fn am_changes_nothing() {
    assert_eq!(Watch::str_to_secs("01:34 AM", true), 5640);
    assert_eq!(Watch::str_to_secs("12:00 AM", true), 43200);
    assert_eq!(Watch::str_to_secs("01:34 a.m.", true), 5640);
}

#[test]
fn a_marker_is_found_anywhere_in_the_string() {
    assert_eq!(Watch::str_to_secs("1:00pm", true), 46800);
    assert_eq!(Watch::str_to_secs("pm 1:00", true), 43200);
    assert_eq!(Watch::str_to_secs("1pm", true), 43200);
    assert_eq!(Watch::str_to_secs("1:00 rpm", true), 46800);
    assert_eq!(Watch::str_to_secs("1:00 spam", true), 3600);
}

#[test]
fn a_broken_marker_is_none() {
    assert_eq!(Watch::str_to_secs("1:00 P M", true), 3600);
    assert_eq!(Watch::str_to_secs("1:00 p,m", true), 3600);
    assert_eq!(Watch::str_to_secs("1:00 MP", true), 3600);
    assert_eq!(Watch::str_to_secs("1:00 P", true), 3600);
    assert_eq!(Watch::str_to_secs("1:00 M", true), 3600);
    assert_eq!(Watch::str_to_secs("1:00 p-m", true), 3600);
}

#[test]
fn a_field_too_large_for_the_machine_counts_as_zero() {
    assert_eq!(Watch::str_to_secs("99999999999999999999:01", false), 60);
    assert_eq!(Watch::str_to_secs("9223372036854775808:01", false), 60);
    assert_eq!(Watch::str_to_secs("-9223372036854775809:01", false), 60);
    assert_eq!(Watch::str_to_secs("0:0:9223372036854775807", false), 9223372036854775807);
    assert_eq!(Watch::str_to_secs("0:0:-9223372036854775808", false), -9223372036854775808);
}

#[test]
fn leading_zeros_do_not_make_a_field_too_large() {
    assert_eq!(Watch::str_to_secs("0000000000000000000000000000000005:00", false), 18000);
    assert_eq!(Watch::str_to_secs("0:0:00000000000000000009223372036854775807", false), i64::MAX);
}

#[test]
fn checked_reading_agrees_where_the_seconds_fit() {
    assert_eq!(Watch::checked_str_to_secs("01:23:45", false), Some(5025));
    assert_eq!(Watch::checked_str_to_secs("01:33:23 PM", true), Some(48803));
    assert_eq!(Watch::checked_str_to_secs("01:33:23 PM", false), Some(5603));
    assert_eq!(Watch::checked_str_to_secs("abc", true), Some(0));
    assert_eq!(Watch::checked_str_to_secs("2562047788015215:30:07", false), Some(i64::MAX));
    assert_eq!(Watch::checked_str_to_secs("-2562047788015215:-30:-08", false), Some(i64::MIN));
}

#[test]
fn checked_reading_reports_seconds_that_do_not_fit() {
    assert_eq!(Watch::checked_str_to_secs("2562047788015215:30:08", false), None);
    assert_eq!(Watch::checked_str_to_secs("-2562047788015215:-30:-09", false), None);
    assert_eq!(Watch::checked_str_to_secs("9223372036854775807:0:0", false), None);
    assert_eq!(Watch::checked_str_to_secs("2562047788015215:30:07 PM", true), None);
    assert_eq!(Watch::checked_str_to_secs("2562047788015215:30:07 PM", false), Some(i64::MAX));
}

#[test]
fn checked_reading_lets_fields_cancel_before_judging() {
    assert_eq!(
        Watch::checked_str_to_secs("2562047788015216:-1000:0", false),
        Some(9223372036854717600)
    );
}

#[test]
fn characters_are_taken_one_by_one() {
    assert_eq!(to_chars("1:é"), vec!['1', ':', 'é']);
    assert_eq!(to_chars(""), Vec::<char>::new());
}

#[test]
fn find_gives_the_first_place_or_the_end() {
    let chars = to_chars("12:34:56");
    assert_eq!(find(&chars, 0, 8, ':'), 2);
    assert_eq!(find(&chars, 3, 8, ':'), 5);
    assert_eq!(find(&chars, 6, 8, ':'), 8);
    assert_eq!(find(&chars, 2, 2, ':'), 2);
    assert_eq!(find(&chars, 0, 2, ':'), 2);
}

#[test]
fn fields_are_read_in_place() {
    let chars = to_chars("12:-34:+56:x:");
    assert_eq!(parse_field(&chars, 0, 2), 12);
    assert_eq!(parse_field(&chars, 3, 6), -34);
    assert_eq!(parse_field(&chars, 7, 10), 56);
    assert_eq!(parse_field(&chars, 11, 12), 0);
    assert_eq!(parse_field(&chars, 13, 13), 0);
    assert_eq!(parse_field(&chars, 0, 5), 0);
    assert_eq!(parse_field(&chars, 3, 4), 0);
}

#[test]
fn markers_are_recognised() {
    assert!(holds_pm(&to_chars("PM")));
    assert!(holds_pm(&to_chars("pM")));
    assert!(holds_pm(&to_chars("xp.m")));
    assert!(holds_pm(&to_chars("ppm")));
    assert!(holds_pm(&to_chars("p.p.m")));
    assert!(holds_pm(&to_chars("pxpm")));
    assert!(!holds_pm(&to_chars("")));
    assert!(!holds_pm(&to_chars("p")));
    assert!(!holds_pm(&to_chars("m")));
    assert!(!holds_pm(&to_chars("mp")));
    assert!(!holds_pm(&to_chars("p m")));
    assert!(!holds_pm(&to_chars("p.x.m")));
    assert!(!holds_pm(&to_chars("AM")));
}

#[test]
fn seconds_are_counted_in_full_width() {
    assert_eq!(count_seconds(&to_chars("01:23:45"), false), 5025);
    assert_eq!(
        count_seconds(&to_chars("9223372036854775807:0:0"), false),
        9223372036854775807i128 * 3600
    );
    assert_eq!(
        count_seconds(&to_chars("9223372036854775807:0:0 pm"), true),
        (9223372036854775807i128 + 12) * 3600
    );
}

#[test]
fn a_tab_ends_the_fields_as_a_space_does() {
    assert_eq!(Watch::str_to_secs("01:33:23\tPM", true), 48803);
    assert_eq!(Watch::str_to_secs("01:33:23 PM", true), 48803);
    assert_eq!(Watch::str_to_secs("01:33:23\tPM", false), 5603);
    assert_eq!(Watch::str_to_secs("01:33:23\tAM", true), 5603);
}

#[test]
fn any_white_space_ends_the_fields() {
    assert_eq!(Watch::str_to_secs("01:33:23\nPM", true), 48803);
    assert_eq!(Watch::str_to_secs("01:33:23\rPM", true), 48803);
    assert_eq!(Watch::str_to_secs("01:33:23\r\nPM", true), 48803);
    assert_eq!(Watch::str_to_secs("01:33:23\u{b}PM", true), 48803);
    assert_eq!(Watch::str_to_secs("01:33:23\u{c}PM", true), 48803);
    assert_eq!(Watch::str_to_secs("01:33:23\u{85}PM", true), 48803);
    assert_eq!(Watch::str_to_secs("01:33:23\u{a0}PM", true), 48803);
    assert_eq!(Watch::str_to_secs("01:33:23\u{2003}PM", true), 48803);
    assert_eq!(Watch::str_to_secs("01:33:23\u{3000}PM", true), 48803);
    assert_eq!(Watch::str_to_secs("01:33:23 \t PM", true), 48803);
    assert_eq!(Watch::str_to_secs("\t01:33:23", true), 0);
    assert_eq!(Watch::str_to_secs("01:33\t:23", true), 5580);
}

#[test]
fn what_is_no_white_space_stays_in_its_field() {
    assert_eq!(Watch::str_to_secs("01:33:23\u{200b}PM", true), 48780);
    assert_eq!(Watch::str_to_secs("01:33:23_PM", true), 48780);
    assert_eq!(Watch::str_to_secs("01:33:23\u{1}PM", true), 48780);
}

#[test]
fn white_space_is_what_the_language_calls_so() {
    let mut code: u32 = 0;
    while code <= 0x10ffff {
        if let Some(c) = char::from_u32(code) {
            assert_eq!(blank(c), c.is_whitespace());
        }
        code += 1;
    }
}

#[test]
fn find_blank_gives_the_first_place_or_the_end() {
    assert_eq!(find_blank(&to_chars("12:34 PM")), 5);
    assert_eq!(find_blank(&to_chars("12:34\tPM ")), 5);
    assert_eq!(find_blank(&to_chars(" 12:34")), 0);
    assert_eq!(find_blank(&to_chars("12:34")), 5);
    assert_eq!(find_blank(&to_chars("")), 0);
}
