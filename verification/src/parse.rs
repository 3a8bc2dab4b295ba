//! The grammar of a time string: `H[:MM[:SS]]`, then optionally white space
//! and a meridiem marker. Nothing is rejected: a field that is no integer counts
//! as zero.

use vstd::prelude::*;
use crate::numeral::{field_value, parse_field};
use crate::watch::Watch;

verus! {

/// The place of the first `c` in `s`, or the length of `s` where it holds none.
pub open spec fn first_index(s: Seq<char>, c: char) -> int
    decreases s.len(),
{
    if s.len() == 0 || s[0] == c {
        0
    } else {
        1 + first_index(s.skip(1), c)
    }
}

/// Whether `c` is white space: a space, a tab, a line break, or another of
/// the characters that Unicode gives the property White_Space.
pub open spec fn is_blank(c: char) -> bool {
    ||| c == ' '
    ||| '\u{9}' <= c <= '\u{d}'
    ||| c == '\u{85}'
    ||| c == '\u{a0}'
    ||| c == '\u{1680}'
    ||| '\u{2000}' <= c <= '\u{200a}'
    ||| c == '\u{2028}'
    ||| c == '\u{2029}'
    ||| c == '\u{202f}'
    ||| c == '\u{205f}'
    ||| c == '\u{3000}'
}

/// The place of the first white space in `s`, or the length of `s` where it
/// holds none.
pub open spec fn first_blank(s: Seq<char>) -> int
    decreases s.len(),
{
    if s.len() == 0 || is_blank(s[0]) {
        0
    } else {
        1 + first_blank(s.skip(1))
    }
}

/// The part of a time string that holds its fields: what stands before the
/// first white space, and all of it where there is none.
pub open spec fn clock_part(s: Seq<char>) -> Seq<char> {
    s.take(first_blank(s))
}

/// What stands before the first `c` in `s`: all of `s` where it holds none.
pub open spec fn before(s: Seq<char>, c: char) -> Seq<char> {
    s.take(first_index(s, c))
}

/// What stands after the first `c` in `s`: nothing where it holds none.
pub open spec fn after(s: Seq<char>, c: char) -> Seq<char> {
    let at = first_index(s, c);
    if at < s.len() {
        s.skip(at + 1)
    } else {
        Seq::empty()
    }
}

/// Whether only periods stand strictly between the places `from` and `to`.
pub open spec fn only_periods(s: Seq<char>, from: int, to: int) -> bool {
    forall|k: int| from < k < to ==> #[trigger] s[k] == '.'
}

/// Whether a `P` at `p` and an `M` at `m`, in either case, form a marker:
/// `PM`, `pm`, `P.M`, `p..m` and the like.
pub open spec fn marks_pm(s: Seq<char>, p: int, m: int) -> bool {
    &&& 0 <= p < m < s.len()
    &&& (s[p] == 'P' || s[p] == 'p')
    &&& (s[m] == 'M' || s[m] == 'm')
    &&& only_periods(s, p, m)
}

/// Whether `s` holds a `PM` marker anywhere.
pub open spec fn has_pm(s: Seq<char>) -> bool {
    exists|p: int, m: int| marks_pm(s, p, m)
}

/// The seconds that the time string `time` counts: hours, minutes and seconds
/// are the first three fields, split at `:`, of what stands before the first
/// white space. Twelve hours are added for a `PM` marker where `clock_time` says
/// that the string is a time of day and no time span.
pub open spec fn seconds_of(time: Seq<char>, clock_time: bool) -> int {
    let clock = clock_part(time);
    let from_minutes = after(clock, ':');
    let from_seconds = after(from_minutes, ':');
    let hours = field_value(before(clock, ':')) + if clock_time && has_pm(time) {
        12int
    } else {
        0int
    };
    hours * 3600 + field_value(before(from_minutes, ':')) * 60 + field_value(
        before(from_seconds, ':'),
    )
}

/// `first_index` is the one place up to which `s` holds no `c` and at which it
/// holds one or ends.
pub proof fn lemma_first_index(s: Seq<char>, c: char, at: int)
    requires
        0 <= at <= s.len(),
        forall|k: int| 0 <= k < at ==> s[k] != c,
        at < s.len() ==> s[at] == c,
    ensures
        first_index(s, c) == at,
    decreases s.len(),
{
    if s.len() == 0 || s[0] == c {
    } else {
        let rest = s.skip(1);
        assert forall|k: int| 0 <= k < at - 1 implies rest[k] != c by {
            assert(rest[k] == s[k + 1]);
        }
        lemma_first_index(rest, c, at - 1);
    }
}

/// `first_blank` is the one place up to which `s` holds no white space and at
/// which it holds some or ends.
pub proof fn lemma_first_blank(s: Seq<char>, at: int)
    requires
        0 <= at <= s.len(),
        forall|k: int| 0 <= k < at ==> !is_blank(#[trigger] s[k]),
        at < s.len() ==> is_blank(s[at]),
    ensures
        first_blank(s) == at,
    decreases s.len(),
{
    if s.len() == 0 || is_blank(s[0]) {
    } else {
        let rest = s.skip(1);
        assert forall|k: int| 0 <= k < at - 1 implies !is_blank(#[trigger] rest[k]) by {
            assert(rest[k] == s[k + 1]);
        }
        lemma_first_blank(rest, at - 1);
    }
}

/// The characters of `text`, in order.
pub fn to_chars(text: &str) -> (chars: Vec<char>)
    ensures
        chars@ == text@,
{
    let mut chars: Vec<char> = Vec::new();
    for c in it: text.chars()
        invariant
            it.seq() == text@,
            chars@ == it.seq().take(it.index()),
    {
        chars.push(c);
    }
    chars
}

/// The place of the first `c` in `chars[lo..hi]`, or `hi`.
pub fn find(chars: &Vec<char>, lo: usize, hi: usize, c: char) -> (at: usize)
    requires
        lo <= hi <= chars.len(),
    ensures
        lo <= at <= hi,
        at == lo + first_index(chars@.subrange(lo as int, hi as int), c),
{
    let mut at: usize = lo;
    while at < hi && chars[at] != c
        invariant
            lo <= at <= hi <= chars.len(),
            forall|k: int| lo <= k < at ==> chars@[k] != c,
        decreases hi - at,
    {
        at = at + 1;
    }
    proof {
        lemma_first_index(chars@.subrange(lo as int, hi as int), c, at - lo);
    }
    at
}

/// Tells white space from the rest.
pub fn blank(c: char) -> (is: bool)
    ensures
        is == is_blank(c),
{
    c == ' ' || ('\u{9}' <= c && c <= '\u{d}') || c == '\u{85}' || c == '\u{a0}' || c
        == '\u{1680}' || ('\u{2000}' <= c && c <= '\u{200a}') || c == '\u{2028}' || c
        == '\u{2029}' || c == '\u{202f}' || c == '\u{205f}' || c == '\u{3000}'
}

/// The place of the first white space in `chars`, or their number.
pub fn find_blank(chars: &Vec<char>) -> (at: usize)
    ensures
        at <= chars.len(),
        at == first_blank(chars@),
{
    let mut at: usize = 0;
    while at < chars.len() && !blank(chars[at])
        invariant
            at <= chars.len(),
            forall|k: int| 0 <= k < at ==> !is_blank(#[trigger] chars@[k]),
        decreases chars.len() - at,
    {
        at = at + 1;
    }
    proof {
        lemma_first_blank(chars@, at as int);
    }
    at
}

/// Whether a `P` stands at `p`, before `upto`, with only periods after it
/// up to there: the state in which an `M` at `upto` completes a marker.
spec fn awaits_m(s: Seq<char>, p: int, upto: int) -> bool {
    &&& 0 <= p < upto
    &&& (s[p] == 'P' || s[p] == 'p')
    &&& only_periods(s, p, upto)
}

/// Looks for a `PM` marker in one pass.
pub fn holds_pm(chars: &Vec<char>) -> (found: bool)
    ensures
        found == has_pm(chars@),
{
    let ghost s = chars@;
    let mut pending = false;
    let mut i: usize = 0;
    while i < chars.len()
        invariant
            i <= chars.len(),
            s == chars@,
            pending <==> exists|p: int| awaits_m(s, p, i as int),
            forall|p: int, m: int| m < i ==> !marks_pm(s, p, m),
        decreases chars.len() - i,
    {
        let c = chars[i];
        let ghost next: int = i + 1;
        if pending && (c == 'M' || c == 'm') {
            proof {
                let p = choose|p: int| awaits_m(s, p, i as int);
                assert(marks_pm(s, p, i as int));
            }
            return true;
        }
        proof {
            assert forall|p: int, m: int| m < next implies !marks_pm(s, p, m) by {
                if m == i && marks_pm(s, p, m) {
                    assert(awaits_m(s, p, i as int));
                }
            }
        }
        if c == 'P' || c == 'p' {
            pending = true;
            assert(awaits_m(s, i as int, next));
        } else if c != '.' {
            pending = false;
            assert forall|p: int| !awaits_m(s, p, next) by {
                if awaits_m(s, p, next) {
                    assert(s[i as int] == '.');
                }
            }
        } else {
            proof {
                if pending {
                    let p = choose|p: int| awaits_m(s, p, i as int);
                    assert(awaits_m(s, p, next));
                } else {
                    assert forall|p: int| !awaits_m(s, p, next) by {
                        if awaits_m(s, p, next) {
                            assert(awaits_m(s, p, i as int));
                        }
                    }
                }
            }
        }
        i = i + 1;
    }
    false
}

/// The seconds that `chars` counts as a time string, in full width.
pub fn count_seconds(chars: &Vec<char>, clock_time: bool) -> (secs: i128)
    ensures
        secs == seconds_of(chars@, clock_time),
{
    let end = find_blank(chars);
    let ghost clock = clock_part(chars@);
    let ghost from_minutes = after(clock, ':');
    let ghost from_seconds = after(from_minutes, ':');
    assert(clock == chars@.subrange(0, end as int));

    let hours_end = find(chars, 0, end, ':');
    let hours = parse_field(chars, 0, hours_end);
    assert(before(clock, ':') == chars@.subrange(0, hours_end as int));

    let minutes_at: usize = if hours_end < end {
        hours_end + 1
    } else {
        end
    };
    assert(from_minutes == chars@.subrange(minutes_at as int, end as int));
    let minutes_end = find(chars, minutes_at, end, ':');
    let minutes = parse_field(chars, minutes_at, minutes_end);
    assert(before(from_minutes, ':') == chars@.subrange(minutes_at as int, minutes_end as int));

    let seconds_at: usize = if minutes_end < end {
        minutes_end + 1
    } else {
        end
    };
    assert(from_seconds == chars@.subrange(seconds_at as int, end as int));
    let seconds_end = find(chars, seconds_at, end, ':');
    let seconds = parse_field(chars, seconds_at, seconds_end);
    assert(before(from_seconds, ':') == chars@.subrange(seconds_at as int, seconds_end as int));

    let afternoon: i128 = if clock_time && holds_pm(chars) {
        12
    } else {
        0
    };
    (hours as i128 + afternoon) * 3600 + minutes as i128 * 60 + seconds as i128
}

impl Watch {
    /// The seconds that the time string `time` counts, where they fit in an
    /// `i64`, and `None` where they do not.
    pub fn checked_str_to_secs(time: &str, clock_time: bool) -> (secs: Option<i64>)
        ensures
            match secs {
                Some(s) => s == seconds_of(time@, clock_time),
                None => !(i64::MIN <= seconds_of(time@, clock_time) <= i64::MAX),
            },
    {
        let chars = to_chars(time);
        let secs = count_seconds(&chars, clock_time);
        if -0x8000_0000_0000_0000 <= secs && secs <= 0x7fff_ffff_ffff_ffff {
            Some(secs as i64)
        } else {
            None
        }
    }

    /// The seconds that the time string `time` counts. `clock_time` says
    /// whether `time` is a time of day, in which a `PM` marker adds twelve
    /// hours, or a time span, in which it means nothing.
    pub fn str_to_secs(time: &str, clock_time: bool) -> (secs: i64)
        requires
            i64::MIN <= seconds_of(time@, clock_time) <= i64::MAX,
        ensures
            secs == seconds_of(time@, clock_time),
    {
        let chars = to_chars(time);
        count_seconds(&chars, clock_time) as i64
    }
}

} // verus!
