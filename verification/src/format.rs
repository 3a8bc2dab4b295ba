//! The display of a count of seconds as a time of day, in 24-hour and in
//! 12-hour form, and of a count of days as a signed suffix.

use vstd::prelude::*;
use vstd::string::StringExecFns;
use crate::numeral::{decimal, push_decimal};
use crate::watch::Watch;

verus! {

/// The quotient of `a` by a positive `b`, rounded toward zero.
pub open spec fn quotient(a: int, b: int) -> int {
    if a >= 0 {
        a / b
    } else {
        -((-a) / b)
    }
}

/// What is left of `a` after `quotient(a, b)` times `b`: it has the sign of `a`.
pub open spec fn remainder(a: int, b: int) -> int {
    a - b * quotient(a, b)
}

/// A number written in two places at least: a single digit gets a zero in
/// front, a negative number a minus sign and no zero.
pub open spec fn two_places(n: int) -> Seq<char> {
    if n < 0 {
        seq!['-'] + decimal((-n) as nat)
    } else if n < 10 {
        seq!['0'] + decimal(n as nat)
    } else {
        decimal(n as nat)
    }
}

/// The hour of the day in a count of seconds.
pub open spec fn hour_of(secs: int) -> int {
    remainder(quotient(secs, 3600), 24)
}

/// The minute of the hour in a count of seconds.
pub open spec fn minute_of(secs: int) -> int {
    quotient(remainder(secs, 3600), 60)
}

/// The second of the minute in a count of seconds.
pub open spec fn second_of(secs: int) -> int {
    remainder(secs, 60)
}

/// The hour that a 12-hour clock shows at the hour `hour` of the day: it has
/// no hour zero and shows twelve in its place.
pub open spec fn hour_on_dial(hour: int) -> int {
    let turned = if hour >= 12 {
        hour - 12
    } else {
        hour
    };
    if turned == 0 {
        12
    } else {
        turned
    }
}

/// The 24-hour display of `secs`: `HH:MM:SS`.
pub open spec fn mil_text(secs: int) -> Seq<char> {
    two_places(hour_of(secs)) + seq![':'] + two_places(minute_of(secs)) + seq![':'] + two_places(
        second_of(secs),
    )
}

/// The 12-hour display of `secs`: `HH:MM:SS AM` or `HH:MM:SS PM`.
pub open spec fn mer_text(secs: int) -> Seq<char> {
    two_places(hour_on_dial(hour_of(secs))) + seq![':'] + two_places(minute_of(secs)) + seq![':']
        + two_places(second_of(secs)) + if hour_of(secs) >= 12 {
        seq![' ', 'P', 'M']
    } else {
        seq![' ', 'A', 'M']
    }
}

/// The suffix for `days` whole days: ` +N days` ahead, ` -N days` behind,
/// nothing for none.
pub open spec fn days_text(days: int) -> Seq<char> {
    if days > 0 {
        seq![' ', '+'] + decimal(days as nat) + seq![' ', 'd', 'a', 'y', 's']
    } else if days < 0 {
        seq![' ', '-'] + decimal((-days) as nat) + seq![' ', 'd', 'a', 'y', 's']
    } else {
        Seq::empty()
    }
}

/// The suffix for a difference of `diff` seconds: that of the whole days in it.
pub open spec fn diff_text(diff: int) -> Seq<char> {
    days_text(quotient(diff, 86400))
}

/// Appends `n` in two places at least.
fn push_two_places(out: &mut String, n: i64)
    requires
        n > i64::MIN,
    ensures
        final(out)@ == old(out)@ + two_places(n as int),
{
    if n < 0 {
        out.append("-");
        push_decimal(out, (-n) as u64);
        proof {
            reveal_strlit("-");
        }
    } else {
        if n < 10 {
            out.append("0");
            proof {
                reveal_strlit("0");
            }
        }
        push_decimal(out, n as u64);
    }
}

/// Appends the suffix for `days` whole days.
pub fn push_days(out: &mut String, days: i64)
    requires
        days > i64::MIN,
    ensures
        final(out)@ == old(out)@ + days_text(days as int),
{
    proof {
        reveal_strlit(" +");
        reveal_strlit(" -");
        reveal_strlit(" days");
    }
    if days > 0 {
        out.append(" +");
        push_decimal(out, days as u64);
        out.append(" days");
    } else if days < 0 {
        out.append(" -");
        push_decimal(out, (-days) as u64);
        out.append(" days");
    }
}

impl Watch {
    /// Writes `secs` as a time of day in 24-hour form, `HH:MM:SS`.
    ///
    /// A count of a day or more shows the hour within its day. A negative
    /// count shows its fields with the sign they have.
    pub fn secs_to_mil(secs: i64) -> (text: String)
        ensures
            text@ == mil_text(secs as int),
    {
        let hours: i64 = secs / 3600 % 24;
        let minutes: i64 = (secs % 3600) / 60;
        let seconds: i64 = secs % 60;
        proof {
            reveal_strlit(":");
        }
        let mut text = String::new();
        push_two_places(&mut text, hours);
        text.append(":");
        push_two_places(&mut text, minutes);
        text.append(":");
        push_two_places(&mut text, seconds);
        text
    }

    /// Writes `secs` as a time of day in 12-hour form, `HH:MM:SS AM` or
    /// `HH:MM:SS PM`: from noon on the hour is counted anew and marked `PM`,
    /// and the hour zero is shown as twelve.
    pub fn secs_to_mer(secs: i64) -> (text: String)
        ensures
            text@ == mer_text(secs as int),
    {
        let mut hours: i64 = secs / 3600 % 24;
        let minutes: i64 = (secs % 3600) / 60;
        let seconds: i64 = secs % 60;
        let afternoon = hours >= 12;
        if afternoon {
            hours = hours - 12;
        }
        if hours == 0 {
            hours = 12;
        }
        proof {
            reveal_strlit(":");
            reveal_strlit(" PM");
            reveal_strlit(" AM");
        }
        let mut text = String::new();
        push_two_places(&mut text, hours);
        text.append(":");
        push_two_places(&mut text, minutes);
        text.append(":");
        push_two_places(&mut text, seconds);
        if afternoon {
            text.append(" PM");
        } else {
            text.append(" AM");
        }
        text
    }

    /// Writes the whole days in a difference of `diff` seconds as a suffix:
    /// ` +N days`, ` -N days`, or nothing where `diff` is less than a day
    /// either way.
    pub fn diff_to_days(diff: i64) -> (text: String)
        ensures
            text@ == diff_text(diff as int),
    {
        let mut text = String::new();
        push_days(&mut text, diff / 86400);
        text
    }
}

} // verus!
