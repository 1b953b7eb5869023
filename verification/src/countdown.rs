//! The countdown to a reset, as `Xh Ym Zs`.

use vstd::prelude::*;

use crate::bridge::{fallback_time_remaining, time_remaining};
use crate::clock::{reading_instant, system_clock_secs};
use crate::text::{decimal, push_decimal};

verus! {

/// A countdown to the instant `reset_at` (Unix seconds).
#[derive(Debug, Clone, Copy)]
pub struct Countdown {
    pub reset_at: i64,
}

/// What the countdown shows with `secs` seconds left: `Expired` once none
/// are, else hours, minutes and seconds, leaving out leading zero units.
pub open spec fn countdown_text(secs: int) -> Seq<char> {
    if secs <= 0 {
        "Expired"@
    } else {
        let h = secs / 3600;
        let m = (secs % 3600) / 60;
        let s = secs % 60;
        if h > 0 {
            decimal(h as nat) + "h "@ + decimal(m as nat) + "m "@ + decimal(s as nat) + "s"@
        } else if m > 0 {
            decimal(m as nat) + "m "@ + decimal(s as nat) + "s"@
        } else {
            decimal(s as nat) + "s"@
        }
    }
}

/// `reset_at - now` fits in an `i64` (where it does not, the subtraction
/// overflows).
pub open spec fn difference_fits(reset_at: int, now: int) -> bool {
    i64::MIN <= reset_at - now <= i64::MAX
}

/// Seconds left until `reset_at` when the system clock reads `reading`:
/// `max(reset_at - now, 0)`, and `None` where `reset_at - now` overflows.
pub open spec fn remaining_at_reading(reset_at: i64, reading: u64) -> Option<int> {
    let now = reading_instant(reading);
    if difference_fits(reset_at as int, now) {
        Some(time_remaining(reset_at as int, now))
    } else {
        None
    }
}

/// Less than an hour is left.
pub open spec fn urgent(secs: int) -> bool {
    secs < 3600
}

/// The text of a countdown with `secs` seconds left.
pub fn format_remaining_secs(secs: i64) -> (text: String)
    ensures
        text@ == countdown_text(secs as int),
{
    if secs <= 0 {
        return String::from_str("Expired");
    }
    let h = (secs / 3600) as u64;
    let m = ((secs % 3600) / 60) as u64;
    let s = (secs % 60) as u64;
    let mut text = String::new();
    if h > 0 {
        push_decimal(&mut text, h);
        text.append("h ");
        push_decimal(&mut text, m);
        text.append("m ");
        push_decimal(&mut text, s);
        text.append("s");
    } else if m > 0 {
        push_decimal(&mut text, m);
        text.append("m ");
        push_decimal(&mut text, s);
        text.append("s");
    } else {
        push_decimal(&mut text, s);
        text.append("s");
    }
    text
}

impl Countdown {
    /// A countdown to `reset_at`.
    pub fn new(reset_at: i64) -> (c: Countdown)
        ensures
            c.reset_at == reset_at,
    {
        Countdown { reset_at }
    }

    /// Seconds left at the instant `now`, never negative.
    pub fn remaining_seconds_at(&self, now: i64) -> (secs: i64)
        requires
            i64::MIN <= self.reset_at - now <= i64::MAX,
        ensures
            secs == time_remaining(self.reset_at as int, now as int),
    {
        fallback_time_remaining(self.reset_at, now)
    }

    /// Seconds left when the system clock reads `reading`; `None` where
    /// the difference to the reading overflows.
    pub fn remaining_seconds_at_reading(&self, reading: u64) -> (secs: Option<i64>)
        ensures
            match secs {
                Some(s) => remaining_at_reading(self.reset_at, reading) == Some(s as int),
                None => remaining_at_reading(self.reset_at, reading) is None,
            },
    {
        let now = reading as i64;
        if (now >= 0 && self.reset_at < i64::MIN + now) || (now < 0 && self.reset_at > i64::MAX + now) {
            None
        } else {
            Some(self.remaining_seconds_at(now))
        }
    }

    /// Seconds left by the system clock, never negative; `None` where the
    /// difference to the clock's reading overflows.
    pub fn remaining_seconds(&self) -> (secs: Option<i64>)
        ensures
            exists|reading: u64|
                match secs {
                    Some(s) => #[trigger] remaining_at_reading(self.reset_at, reading) == Some(s as int),
                    None => remaining_at_reading(self.reset_at, reading) is None,
                },
    {
        let reading = system_clock_secs();
        self.remaining_seconds_at_reading(reading)
    }

    /// The countdown's text at the instant `now`.
    pub fn format_remaining_at(&self, now: i64) -> (text: String)
        requires
            i64::MIN <= self.reset_at - now <= i64::MAX,
        ensures
            text@ == countdown_text(time_remaining(self.reset_at as int, now as int)),
    {
        format_remaining_secs(self.remaining_seconds_at(now))
    }

    /// The countdown's text by the system clock; `None` where the
    /// difference to the clock's reading overflows.
    pub fn format_remaining(&self) -> (text: Option<String>)
        ensures
            exists|reading: u64|
                match text {
                    Some(t) => #[trigger] remaining_at_reading(self.reset_at, reading) matches Some(s)
                        && t@ == countdown_text(s),
                    None => remaining_at_reading(self.reset_at, reading) is None,
                },
    {
        match self.remaining_seconds() {
            Some(s) => Some(format_remaining_secs(s)),
            None => None,
        }
    }

    /// Less than an hour is left at the instant `now`.
    pub fn is_urgent_at(&self, now: i64) -> (b: bool)
        requires
            i64::MIN <= self.reset_at - now <= i64::MAX,
        ensures
            b == urgent(time_remaining(self.reset_at as int, now as int)),
    {
        self.remaining_seconds_at(now) < 3600
    }

    /// Less than an hour is left by the system clock; `None` where the
    /// difference to the clock's reading overflows.
    pub fn is_urgent(&self) -> (b: Option<bool>)
        ensures
            exists|reading: u64|
                match b {
                    Some(u) => #[trigger] remaining_at_reading(self.reset_at, reading) matches Some(s)
                        && u == urgent(s),
                    None => remaining_at_reading(self.reset_at, reading) is None,
                },
    {
        match self.remaining_seconds() {
            Some(s) => Some(s < 3600),
            None => None,
        }
    }
}

} // verus!
