//! What holds of the watch across its operations.

use vstd::prelude::*;
use vstd::std_specs::ops::{AddSpec, SubSpec};
use crate::format::{
    days_text,
    hour_of,
    hour_on_dial,
    mer_text,
    mil_text,
    minute_of,
    second_of,
    two_places,
};
use crate::numeral::{all_digits, decimal, digit_char, digits_value, field_value, is_digit};
use crate::parse::{
    after,
    before,
    clock_part,
    has_pm,
    is_blank,
    lemma_first_blank,
    lemma_first_index,
    marks_pm,
    seconds_of,
};
use crate::watch::Watch;

verus! {

/// The 24-hour writing `HH:MM:SS` of an hour, a minute and a second.
pub open spec fn clock_string(hour: int, minute: int, second: int) -> Seq<char> {
    two_places(hour) + seq![':'] + two_places(minute) + seq![':'] + two_places(second)
}

/// A number below a hundred is written in two places as its two digits, and
/// read as a field it is that number again.
pub proof fn lemma_two_places(n: int)
    requires
        0 <= n <= 99,
    ensures
        two_places(n) == seq![digit_char(n / 10), digit_char(n % 10)],
        field_value(two_places(n)) == n,
{
    let text = two_places(n);
    reveal_with_fuel(decimal, 2);
    assert(text == seq![digit_char(n / 10), digit_char(n % 10)]);
    assert(all_digits(text));
    assert(text.drop_last() == seq![digit_char(n / 10)]);
    assert(text.drop_last().drop_last() == Seq::<char>::empty());
    reveal_with_fuel(digits_value, 3);
    assert(digits_value(text) == n);
}

/// Seconds added to a watch started at midnight show as the 24-hour time of
/// day of those seconds, whichever sign they have, followed by the suffix of
/// their whole days.
pub proof fn law_seconds_from_midnight(watch: Watch, secs: i64)
    requires
        watch.start == seconds_of("00:00:00"@, true),
        watch.offset == 0,
        !watch.meridiem,
    ensures
        watch.add_req(secs),
        watch.add_spec(secs).text() == mil_text(secs as int % 86400) + days_text(secs as int / 86400),
        watch.add_spec(secs).text().take(8) == mil_text(secs as int % 86400),
{
    let midnight = "00:00:00"@;
    reveal_strlit("00:00:00");
    lemma_two_places(0);
    assert(midnight == clock_string(0, 0, 0));
    lemma_clock_string_seconds(0, 0, 0);
    lemma_time_of_day_text(secs as int % 86400);
}

/// A watch started at a 24-hour string `HH:MM:SS`, with the hour below 24 and
/// minute and second below 60, displays that very string in 24-hour form.
pub proof fn law_round_trip(watch: Watch, hour: int, minute: int, second: int)
    requires
        0 <= hour <= 23,
        0 <= minute <= 59,
        0 <= second <= 59,
        watch.start == seconds_of(clock_string(hour, minute, second), true),
        watch.offset == 0,
        !watch.meridiem,
    ensures
        watch.text() == clock_string(hour, minute, second),
{
    lemma_clock_string_seconds(hour, minute, second);
    let secs = hour * 3600 + minute * 60 + second;
    assert(hour_of(secs) == hour);
    assert(minute_of(secs) == minute);
    assert(second_of(secs) == second);
}

/// The string `HH:MM:SS` counts `HH` hours, `MM` minutes and `SS` seconds,
/// as a time of day and as a time span.
pub proof fn lemma_clock_string_seconds(hour: int, minute: int, second: int)
    requires
        0 <= hour <= 99,
        0 <= minute <= 99,
        0 <= second <= 99,
    ensures
        forall|clock_time: bool|
            #[trigger] seconds_of(clock_string(hour, minute, second), clock_time) == hour * 3600
                + minute * 60 + second,
{
    let time = clock_string(hour, minute, second);
    lemma_two_places(hour);
    lemma_two_places(minute);
    lemma_two_places(second);
    assert(time.len() == 8);
    assert(forall|k: int| 0 <= k < 8 && k != 2 && k != 5 ==> is_digit(#[trigger] time[k]));
    assert(time[2] == ':' && time[5] == ':');

    assert(forall|k: int| 0 <= k < 8 ==> !is_blank(#[trigger] time[k]));
    lemma_first_blank(time, 8);
    let clock = clock_part(time);
    assert(clock == time);
    lemma_first_index(clock, ':', 2);
    assert(before(clock, ':') == two_places(hour));

    let from_minutes = after(clock, ':');
    assert(from_minutes == time.skip(3));
    lemma_first_index(from_minutes, ':', 2);
    assert(before(from_minutes, ':') == two_places(minute));

    let from_seconds = after(from_minutes, ':');
    assert(from_seconds == two_places(second));
    lemma_first_index(from_seconds, ':', 2);
    assert(before(from_seconds, ':') == two_places(second));

    assert(!has_pm(time)) by {
        assert forall|p: int, m: int| !marks_pm(time, p, m) by {
            if 0 <= p < 8 {
                assert(time[p] != 'P' && time[p] != 'p');
            }
        }
    }
}

/// The 24-hour form of a time within one day has eight characters.
pub proof fn lemma_time_of_day_text(secs: int)
    requires
        0 <= secs < 86400,
    ensures
        mil_text(secs).len() == 8,
{
    lemma_two_places(hour_of(secs));
    lemma_two_places(minute_of(secs));
    lemma_two_places(second_of(secs));
}

/// The time of day that a watch displays, without the suffix.
pub open spec fn clock_text(watch: Watch) -> Seq<char> {
    if watch.meridiem {
        mer_text(watch.time_of_day())
    } else {
        mil_text(watch.time_of_day())
    }
}

/// The days folded away from the end time are its whole days, counted down
/// from zero for a negative end time, and the suffix of the display is theirs.
pub proof fn law_days_folded(watch: Watch)
    ensures
        watch.end() - watch.time_of_day() == 86400 * (watch.end() / 86400),
        watch.text() == clock_text(watch) + days_text(watch.end() / 86400),
{
}

/// The suffix has the sign of the days: for no days there is none, days
/// ahead follow a ` +` and days behind a ` -`, either way as a count above
/// zero.
pub proof fn law_day_suffix_sign(days: int)
    ensures
        days == 0 <==> days_text(days).len() == 0,
        days > 0 ==> days_text(days) == seq![' ', '+'] + decimal(days as nat) + seq![
            ' ',
            'd',
            'a',
            'y',
            's',
        ],
        days < 0 ==> days_text(days) == seq![' ', '-'] + decimal((-days) as nat) + seq![
            ' ',
            'd',
            'a',
            'y',
            's',
        ],
        days != 0 ==> days_text(days)[0] == ' ' && (days_text(days)[1] == '+' <==> days > 0) && (
        days_text(days)[1] == '-' <==> days < 0),
{
}

/// Taking off the seconds that were added leaves the watch as it was, and
/// with it what it displays.
pub proof fn law_add_then_sub(watch: Watch, secs: i64)
    requires
        watch.add_req(secs),
    ensures
        watch.add_spec(secs).sub_req(secs),
        watch.add_spec(secs).sub_spec(secs) == watch,
        watch.add_spec(secs).sub_spec(secs).text() == watch.text(),
{
}

/// Taking off the time span that was added leaves the watch as it was, and
/// with it what it displays.
pub proof fn law_add_then_sub_span(watch: Watch, span: &str)
    requires
        watch.add_req(span),
    ensures
        watch.add_spec(span).sub_req(span),
        watch.add_spec(span).sub_spec(span) == watch,
        watch.add_spec(span).sub_spec(span).text() == watch.text(),
{
}

/// On the 12-hour dial every hour of the day shows as one of one to twelve,
/// the same hour twelve hours apart, and never as zero.
pub proof fn law_dial(hour: int)
    requires
        0 <= hour <= 23,
    ensures
        1 <= hour_on_dial(hour) <= 12,
        hour_on_dial(hour) % 12 == hour % 12,
{
}

} // verus!
