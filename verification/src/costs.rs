//! The periods that the cost card sums daily cost buckets over.

use vstd::prelude::*;

use crate::clock::{date_text, day_number, midnight_of, timestamp_in_range, utc_date_text};

verus! {

/// Where "today" and "this week" begin for the cost card: today's midnight
/// (UTC) and the midnight seven days before it.
#[derive(Debug, Clone, Copy)]
pub struct CostPeriods {
    pub today_start: i64,
    pub week_start: i64,
}

impl CostPeriods {
    /// The periods as they stand at the instant `now`.
    pub fn at(now: i64) -> (p: CostPeriods)
        requires
            timestamp_in_range(now as int),
        ensures
            p.today_start == day_number(now as int) * 86400,
            p.week_start == p.today_start - 7 * 86400,
    {
        let today_start = midnight_of(now);
        CostPeriods { today_start, week_start: today_start - 7 * 86400 }
    }

    /// A bucket starting at `start_time` counts toward today's cost.
    pub fn counts_today(&self, start_time: i64) -> (b: bool)
        ensures
            b == (start_time >= self.today_start),
    {
        start_time >= self.today_start
    }

    /// A bucket starting at `start_time` counts toward this week's cost.
    pub fn counts_this_week(&self, start_time: i64) -> (b: bool)
        ensures
            b == (start_time >= self.week_start),
    {
        start_time >= self.week_start
    }
}

/// The date under which a cost bucket starting at `start_time` is listed:
/// its UTC day as `YYYY-MM-DD`, empty where `chrono` does not represent the
/// instant.
pub fn bucket_date_text(start_time: i64) -> (text: String)
    ensures
        timestamp_in_range(start_time as int) ==> text@ == date_text(start_time as int),
        !timestamp_in_range(start_time as int) ==> text@ == Seq::<char>::empty(),
{
    match utc_date_text(start_time) {
        Some(s) => s,
        None => String::new(),
    }
}

} // verus!
