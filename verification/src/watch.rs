//! The watch itself: a start time that stays, an offset that arithmetic moves,
//! and the choice between the 12-hour and the 24-hour display.

use vstd::prelude::*;
use vstd::std_specs::ops::{AddSpec, SubSpec};
use crate::format::{diff_text, mer_text, mil_text, push_days};
use crate::parse::seconds_of;

verus! {

/// A start time and the time span added to it since, both in seconds.
///
/// The end time is `start + offset`; it is derived whenever it is asked for
/// and stored nowhere.
#[derive(Clone, Copy, Debug)]
pub struct Watch {
    /// The time at which the watch was started. Arithmetic leaves it alone.
    pub start: i64,
    /// The time span added to the start so far; negative when time was taken off.
    pub offset: i64,
    /// Whether the watch shows 12 hours with `AM` and `PM`, or 24 hours.
    pub meridiem: bool,
}

impl Default for Watch {
    /// The watch at midnight with nothing added, in 24-hour display.
    fn default() -> (watch: Watch)
        ensures
            watch == (Watch { start: 0, offset: 0, meridiem: false }),
    {
        Watch { start: 0, offset: 0, meridiem: false }
    }
}

impl Watch {
    /// The end time of the watch as a mathematical integer.
    pub open spec fn end(self) -> int {
        self.start + self.offset
    }

    /// Starts a watch at the time of day that `time` writes. A `PM` marker in
    /// `time` counts, since `time` is a time of day.
    pub fn new(time: &str, meridiem: bool) -> (watch: Watch)
        requires
            i64::MIN <= seconds_of(time@, true) <= i64::MAX,
        ensures
            watch.start == seconds_of(time@, true),
            watch.offset == 0,
            watch.meridiem == meridiem,
    {
        Watch { start: Watch::str_to_secs(time, true), offset: 0, meridiem }
    }

    /// The end time folded into one day: a negative end time falls on the day
    /// before, so five seconds before midnight are `86395`.
    pub open spec fn time_of_day(self) -> int {
        self.end() % 86400
    }

    /// What the watch displays: the time of day of its end time, in the form
    /// that `meridiem` chooses, then the suffix for the seconds that lie
    /// between that time of day and the end time.
    pub open spec fn text(self) -> Seq<char> {
        (if self.meridiem {
            mer_text(self.time_of_day())
        } else {
            mil_text(self.time_of_day())
        }) + diff_text(self.end() - self.time_of_day())
    }

    /// The watch with `secs` more on its offset.
    pub open spec fn plus(self, secs: int) -> Watch {
        Watch { offset: (self.offset + secs) as i64, ..self }
    }

    /// Whether `secs` more on the offset still fit.
    pub open spec fn takes(self, secs: int) -> bool {
        i64::MIN <= self.offset + secs <= i64::MAX
    }

    /// The end time of the watch: start plus offset.
    pub fn add_offset(&self) -> (end: i64)
        requires
            i64::MIN <= self.end() <= i64::MAX,
        ensures
            end == self.end(),
    {
        self.start + self.offset
    }

    /// Switches between the 12-hour display (`true`) and the 24-hour display.
    pub fn change_meridiem(&mut self, meridiem: bool)
        ensures
            *final(self) == (Watch { meridiem, ..*old(self) }),
    {
        self.meridiem = meridiem;
    }

    /// Writes what the watch displays. The end time is folded into one day,
    /// a negative one onto the day before, and the days folded away follow
    /// as a suffix.
    pub fn to_display_string(&self) -> (text: String)
        ensures
            text@ == self.text(),
    {
        let (time_of_day, days) = fold_into_day(self.start, self.offset);
        let mut text = if self.meridiem {
            Watch::secs_to_mer(time_of_day)
        } else {
            Watch::secs_to_mil(time_of_day)
        };
        push_days(&mut text, days);
        text
    }
}

/// Folds the end time `start + offset` into one day: the time of day, and the
/// whole days that lie before it.
fn fold_into_day(start: i64, offset: i64) -> (folded: (i64, i64))
    ensures
        folded.0 == (start + offset) % 86400,
        folded.1 == (start + offset) / 86400,
{
    let end: i128 = start as i128 + offset as i128;
    let time_of_day: i128 = (end % 86400 + 86400) % 86400;
    let days: i128 = (end - time_of_day) / 86400;
    (time_of_day as i64, days as i64)
}

impl core::ops::Add<i64> for Watch {
    type Output = Watch;

    /// The watch with `rhs` seconds more on its offset.
    fn add(self, rhs: i64) -> (sum: Watch)
        ensures
            sum == self.plus(rhs as int),
    {
        Watch { offset: self.offset + rhs, ..self }
    }
}

impl vstd::std_specs::ops::AddSpecImpl<i64> for Watch {
    open spec fn obeys_add_spec() -> bool {
        true
    }

    open spec fn add_req(self, rhs: i64) -> bool {
        self.takes(rhs as int)
    }

    open spec fn add_spec(self, rhs: i64) -> Watch {
        self.plus(rhs as int)
    }
}

impl core::ops::Sub<i64> for Watch {
    type Output = Watch;

    /// The watch with `rhs` seconds less on its offset.
    fn sub(self, rhs: i64) -> (difference: Watch)
        ensures
            difference == self.plus(-rhs),
    {
        Watch { offset: self.offset - rhs, ..self }
    }
}

impl vstd::std_specs::ops::SubSpecImpl<i64> for Watch {
    open spec fn obeys_sub_spec() -> bool {
        true
    }

    open spec fn sub_req(self, rhs: i64) -> bool {
        self.takes(-rhs)
    }

    open spec fn sub_spec(self, rhs: i64) -> Watch {
        self.plus(-rhs)
    }
}

impl core::ops::Add<&str> for Watch {
    type Output = Watch;

    /// The watch with the time span `rhs` more on its offset.
    fn add(self, rhs: &str) -> (sum: Watch)
        ensures
            sum == self.plus(seconds_of(rhs@, false)),
    {
        self + Watch::str_to_secs(rhs, false)
    }
}

impl vstd::std_specs::ops::AddSpecImpl<&str> for Watch {
    open spec fn obeys_add_spec() -> bool {
        true
    }

    open spec fn add_req(self, rhs: &str) -> bool {
        &&& i64::MIN <= seconds_of(rhs@, false) <= i64::MAX
        &&& self.takes(seconds_of(rhs@, false))
    }

    open spec fn add_spec(self, rhs: &str) -> Watch {
        self.plus(seconds_of(rhs@, false))
    }
}

impl core::ops::Sub<&str> for Watch {
    type Output = Watch;

    /// The watch with the time span `rhs` less on its offset.
    fn sub(self, rhs: &str) -> (difference: Watch)
        ensures
            difference == self.plus(-seconds_of(rhs@, false)),
    {
        self - Watch::str_to_secs(rhs, false)
    }
}

impl vstd::std_specs::ops::SubSpecImpl<&str> for Watch {
    open spec fn obeys_sub_spec() -> bool {
        true
    }

    open spec fn sub_req(self, rhs: &str) -> bool {
        &&& i64::MIN <= seconds_of(rhs@, false) <= i64::MAX
        &&& self.takes(-seconds_of(rhs@, false))
    }

    open spec fn sub_spec(self, rhs: &str) -> Watch {
        self.plus(-seconds_of(rhs@, false))
    }
}

/// What can be added to a watch and taken from it: seconds, and a time span
/// written as a string.
trait AddableToWatch {}

impl AddableToWatch for i64 {}

impl AddableToWatch for &str {}

impl<T: AddableToWatch + Copy> core::ops::AddAssign<T> for Watch
where
    Watch: core::ops::Add<T, Output = Watch>,
{
    /// Adds `other` to the watch in place.
    fn add_assign(&mut self, other: T)
        requires
            old(self).add_req(other),
        ensures
            <Watch as AddSpec<T>>::obeys_add_spec() ==> *final(self) == old(self).add_spec(other),
    {
        *self = *self + other;
    }
}

impl<T: AddableToWatch + Copy> core::ops::SubAssign<T> for Watch
where
    Watch: core::ops::Sub<T, Output = Watch>,
{
    /// Takes `other` from the watch in place.
    fn sub_assign(&mut self, other: T)
        requires
            old(self).sub_req(other),
        ensures
            <Watch as SubSpec<T>>::obeys_sub_spec() ==> *final(self) == old(self).sub_spec(other),
    {
        *self = *self - other;
    }
}

} // verus!
