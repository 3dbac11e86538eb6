//! Dates and times of day.
use crate::text::number;
use vstd::prelude::*;
use vstd::string::*;

verus! {

/// A date and a time of day.
#[derive(Clone, Copy)]
pub struct Moment {
    pub year: i32,
    pub month: u8,
    pub day: u8,
    pub hour: u8,
    pub minute: u8,
    pub second: u8,
}

/// The year, month and day, and the hour, minute and second, that a clock shows at a Unix
/// timestamp in a place that is `offset_secs` seconds ahead of UTC; nothing where that is
/// outside the years that can be shown.
pub uninterp spec fn shown_moment(timestamp: int, offset_secs: int) -> Option<
    (int, int, int, int, int, int),
>;

/// The year, month, day, hour, minute and second of a moment.
pub open spec fn moment_view(m: Option<Moment>) -> Option<(int, int, int, int, int, int)> {
    match m {
        Some(t) => Some(
            (
                t.year as int,
                t.month as int,
                t.day as int,
                t.hour as int,
                t.minute as int,
                t.second as int,
            ),
        ),
        None => None,
    }
}

/// The greatest distance from UTC, in seconds.
pub const MAX_OFFSET: i32 = 93_599;

/// Whether a timestamp lies so far inside the years -9999 to 9999 that it can be shown
/// wherever the clock is.
pub open spec fn is_showable(timestamp: int) -> bool {
    -377_705_023_201 <= timestamp <= 253_402_207_200
}

/// `time::OffsetDateTime::from_unix_timestamp`, brought to an offset by
/// `time::OffsetDateTime::checked_to_offset`, shows the date and time of day at a timestamp.
/// It shows every timestamp of the years -9999 to 9999, and the time of day is what is left
/// of the local timestamp after whole days.
#[verifier::external_body]
fn show(timestamp: i64, offset_secs: i32) -> (r: Option<Moment>)
    requires
        -MAX_OFFSET <= offset_secs <= MAX_OFFSET,
    ensures
        moment_view(r) == shown_moment(timestamp as int, offset_secs as int),
        is_showable(timestamp as int) ==> r is Some,
        r matches Some(t) ==> t.hour == ((timestamp + offset_secs) % 86_400) / 3600 && t.minute
            == ((timestamp + offset_secs) % 3600) / 60 && t.second == (timestamp + offset_secs)
            % 60,
{
    let offset = time::UtcOffset::from_whole_seconds(offset_secs).ok()?;
    let t = time::OffsetDateTime::from_unix_timestamp(timestamp).ok()?.checked_to_offset(offset)?;
    Some(Moment {
        year: t.year(),
        month: u8::from(t.month()),
        day: t.day(),
        hour: t.hour(),
        minute: t.minute(),
        second: t.second(),
    })
}

/// A clock: what time it is, and how far it is ahead of UTC.
pub struct Clock {
    now: i64,
    offset_secs: i32,
}

/// The model of a clock.
pub struct ClockView {
    pub now: int,
    pub offset_secs: int,
}

impl View for Clock {
    type V = ClockView;

    closed spec fn view(&self) -> ClockView {
        ClockView { now: self.now as int, offset_secs: self.offset_secs as int }
    }
}

/// A timestamp as a signed number: one beyond the greatest signed number counts from the least.
pub open spec fn signed(timestamp: u64) -> int {
    if timestamp > i64::MAX {
        timestamp - 0x1_0000_0000_0000_0000
    } else {
        timestamp as int
    }
}

/// What a clock shows for a timestamp. For no timestamp, or one that cannot be shown, it
/// shows the present.
pub open spec fn local_moment(clock: ClockView, timestamp: u64) -> (int, int, int, int, int, int) {
    let then = shown_moment(signed(timestamp), clock.offset_secs);
    if timestamp != 0 && then is Some {
        then->0
    } else {
        shown_moment(clock.now, clock.offset_secs)->0
    }
}

impl Clock {
    #[verifier::type_invariant]
    spec fn present_is_showable(self) -> bool {
        is_showable(self.now as int) && -MAX_OFFSET <= self.offset_secs <= MAX_OFFSET
    }

    /// A clock, where it can show the present.
    pub fn new(now: i64, offset_secs: i32) -> (r: Option<Clock>)
        ensures
            match r {
                Some(c) => is_showable(now as int) && -MAX_OFFSET <= offset_secs <= MAX_OFFSET && c@
                    == (ClockView { now: now as int, offset_secs: offset_secs as int }),
                None => !is_showable(now as int) || offset_secs < -MAX_OFFSET || offset_secs
                    > MAX_OFFSET,
            },
    {
        if -377_705_023_201 <= now && now <= 253_402_207_200 && -MAX_OFFSET <= offset_secs
            && offset_secs <= MAX_OFFSET {
            Some(Clock { now, offset_secs })
        } else {
            None
        }
    }

    /// What the clock shows for a timestamp, or for the present.
    pub fn local_time(&self, timestamp_secs: u64) -> (r: Moment)
        ensures
            moment_view(Some(r)) == Some(local_moment(self@, timestamp_secs)),
    {
        proof {
            use_type_invariant(self);
        }
        if timestamp_secs != 0 {
            let then: i64 = if timestamp_secs > i64::MAX as u64 {
                (timestamp_secs as i128 - 0x1_0000_0000_0000_0000) as i64
            } else {
                timestamp_secs as i64
            };
            if let Some(m) = show(then, self.offset_secs) {
                return m;
            }
        }
        show(self.now, self.offset_secs).unwrap()
    }

    /// The present as a Unix timestamp; before 1970 it is 0.
    pub fn current_unix_timestamp(&self) -> (r: u64)
        ensures
            r == (if self@.now < 0 {
                0
            } else {
                self@.now
            }),
    {
        if self.now < 0 {
            0
        } else {
            self.now as u64
        }
    }

    /// The timestamp, or the present where there is none.
    pub fn normalize_timestamp(&self, timestamp_secs: u64) -> (r: u64)
        ensures
            r == (if timestamp_secs != 0 {
                timestamp_secs as int
            } else if self@.now < 0 {
                0
            } else {
                self@.now
            }),
    {
        if timestamp_secs != 0 {
            timestamp_secs
        } else {
            self.current_unix_timestamp()
        }
    }
}

/// A number with zeros in front, up to `width` characters.
pub open spec fn padded(i: int, width: nat) -> Seq<char> {
    if i < 0 {
        seq!['-'] + number::zero_padded(
            number::dec_nat((-i) as nat),
            if width == 0 {
                0
            } else {
                (width - 1) as nat
            },
        )
    } else {
        number::zero_padded(number::dec_nat(i as nat), width)
    }
}

fn pad(i: i64, width: usize) -> (r: String)
    ensures
        r@ == padded(i as int, width as nat),
{
    if i < 0 {
        let mut s = String::new();
        s.push('-');
        let rest: usize = if width == 0 {
            0
        } else {
            width - 1
        };
        s.append(&number::dec_padded((-(i as i128)) as u64, rest));
        assert(s@ =~= padded(i as int, width as nat));
        s
    } else {
        number::dec_padded(i as u64, width)
    }
}

/// A date such as `2026-06-20`.
pub open spec fn date_text(m: (int, int, int, int, int, int)) -> Seq<char> {
    padded(m.0, 4) + "-"@ + padded(m.1, 2) + "-"@ + padded(m.2, 2)
}

/// A time of day such as `08:05:00`.
pub open spec fn time_text(m: (int, int, int, int, int, int)) -> Seq<char> {
    padded(m.3, 2) + ":"@ + padded(m.4, 2) + ":"@ + padded(m.5, 2)
}

/// A time of day such as `08:05`.
pub open spec fn short_time_text(m: (int, int, int, int, int, int)) -> Seq<char> {
    padded(m.3, 2) + ":"@ + padded(m.4, 2)
}

/// A date such as `2026-06-20`.
pub fn format_date(m: &Moment) -> (r: String)
    ensures
        r@ == date_text(moment_view(Some(*m))->0),
{
    pad(m.year as i64, 4).concat("-").concat(&pad(m.month as i64, 2)).concat("-").concat(
        &pad(m.day as i64, 2),
    )
}

/// A time of day such as `08:05:00`.
pub fn format_time(m: &Moment) -> (r: String)
    ensures
        r@ == time_text(moment_view(Some(*m))->0),
{
    pad(m.hour as i64, 2).concat(":").concat(&pad(m.minute as i64, 2)).concat(":").concat(
        &pad(m.second as i64, 2),
    )
}

/// A time of day such as `08:05`.
pub fn format_short_time(m: &Moment) -> (r: String)
    ensures
        r@ == short_time_text(moment_view(Some(*m))->0),
{
    pad(m.hour as i64, 2).concat(":").concat(&pad(m.minute as i64, 2))
}

/// The offset of China from UTC, in seconds.
pub const CHINA_OFFSET: i32 = 28_800;

/// The date in China at a time.
pub fn today_string(now: i64) -> (r: Option<String>)
    ensures
        match r {
            Some(s) => shown_moment(now as int, CHINA_OFFSET as int) is Some && s@ == date_text(
                shown_moment(now as int, CHINA_OFFSET as int)->0,
            ),
            None => shown_moment(now as int, CHINA_OFFSET as int) is None,
        },
        is_showable(now as int) ==> r is Some,
{
    match show(now, CHINA_OFFSET) {
        Some(m) => Some(format_date(&m)),
        None => None,
    }
}

} // verus!
