//! What holds of the dates and times that are written.
use crate::clock;
use crate::text::number;
use vstd::prelude::*;

verus! {

/// The digit of a number that stands for a power of ten.
pub open spec fn digit(n: int, power: int) -> char {
    number::digit_char((n / power) % 10)
}

proof fn lemma_two(n: int)
    requires
        0 <= n < 100,
    ensures
        clock::padded(n, 2) == seq![digit(n, 10), digit(n, 1)],
{
    reveal_with_fuel(number::dec_nat, 3);
    reveal_with_fuel(number::zero_padded, 3);
    assert(clock::padded(n, 2) =~= seq![digit(n, 10), digit(n, 1)]);
}

proof fn lemma_four(n: int)
    requires
        0 <= n < 10_000,
    ensures
        clock::padded(n, 4) == seq![digit(n, 1000), digit(n, 100), digit(n, 10), digit(n, 1)],
{
    reveal_with_fuel(number::dec_nat, 5);
    reveal_with_fuel(number::zero_padded, 5);
    let a = n / 10;
    let b = a / 10;
    let c = b / 10;
    assert(b == n / 100 && c == n / 1000);
    assert(clock::padded(n, 4) =~= seq![
        digit(n, 1000),
        digit(n, 100),
        digit(n, 10),
        digit(n, 1),
    ]);
}

/// A date is the year in four digits, the month and the day in two, with hyphens between.
pub proof fn law_date_is_written(
    year: int,
    month: int,
    day: int,
    hour: int,
    minute: int,
    second: int,
)
    requires
        0 <= year < 10_000,
        0 <= month < 100,
        0 <= day < 100,
    ensures
        clock::date_text((year, month, day, hour, minute, second)) == seq![
            digit(year, 1000),
            digit(year, 100),
            digit(year, 10),
            digit(year, 1),
            '-',
            digit(month, 10),
            digit(month, 1),
            '-',
            digit(day, 10),
            digit(day, 1),
        ],
{
    reveal_strlit("-");
    lemma_four(year);
    lemma_two(month);
    lemma_two(day);
    assert(clock::date_text((year, month, day, hour, minute, second)) =~= seq![
        digit(year, 1000),
        digit(year, 100),
        digit(year, 10),
        digit(year, 1),
        '-',
        digit(month, 10),
        digit(month, 1),
        '-',
        digit(day, 10),
        digit(day, 1),
    ]);
}

/// A time is the hour, the minute and the second in two digits each, with colons between; the short
/// form leaves out the second.
pub proof fn law_time_is_written(
    year: int,
    month: int,
    day: int,
    hour: int,
    minute: int,
    second: int,
)
    requires
        0 <= hour < 100,
        0 <= minute < 100,
        0 <= second < 100,
    ensures
        clock::time_text((year, month, day, hour, minute, second)) == seq![
            digit(hour, 10),
            digit(hour, 1),
            ':',
            digit(minute, 10),
            digit(minute, 1),
            ':',
            digit(second, 10),
            digit(second, 1),
        ],
        clock::short_time_text((year, month, day, hour, minute, second)) == seq![
            digit(hour, 10),
            digit(hour, 1),
            ':',
            digit(minute, 10),
            digit(minute, 1),
        ],
{
    reveal_strlit(":");
    lemma_two(hour);
    lemma_two(minute);
    lemma_two(second);
    let m = (year, month, day, hour, minute, second);
    assert(clock::time_text(m) =~= seq![
        digit(hour, 10),
        digit(hour, 1),
        ':',
        digit(minute, 10),
        digit(minute, 1),
        ':',
        digit(second, 10),
        digit(second, 1),
    ]);
    assert(clock::short_time_text(m) =~= seq![
        digit(hour, 10),
        digit(hour, 1),
        ':',
        digit(minute, 10),
        digit(minute, 1),
    ]);
}

/// A clock shows the moment of a timestamp, if there is one and it can be shown, and else the
/// present.
pub proof fn law_clock_shows_the_moment(clock: clock::ClockView, timestamp: u64)
    ensures
        0 < timestamp <= i64::MAX && clock::shown_moment(timestamp as int, clock.offset_secs) is Some
            ==> clock::local_moment(clock, timestamp) == clock::shown_moment(
            timestamp as int,
            clock.offset_secs,
        )->0,
        timestamp == 0 ==> clock::local_moment(clock, timestamp) == clock::shown_moment(
            clock.now,
            clock.offset_secs,
        )->0,
        timestamp <= i64::MAX && clock::shown_moment(timestamp as int, clock.offset_secs) is None
            ==> clock::local_moment(clock, timestamp) == clock::shown_moment(
            clock.now,
            clock.offset_secs,
        )->0,
{
}

} // verus!
