//! Durations in whole seconds and their workday/hour/minute breakdown.

use vstd::prelude::*;
use vstd::arithmetic::div_mod::lemma_fundamental_div_mod;
use vstd::arithmetic::div_mod::lemma_fundamental_div_mod_converse;
use vstd::arithmetic::mul::lemma_mul_inequality;
use vstd::arithmetic::mul::lemma_mul_nonnegative;

verus! {

/// Hours in one workday: a calendar day of elapsed time counts as one
/// workday of this many hours when a duration is broken down for display.
pub const WORK_DAY: i64 = 8;

/// A span of time, counted in whole seconds.
///
/// The reporting pipeline only ever handles non-negative spans; functions
/// that decompose a span require `0 <= seconds`.
#[derive(Clone, Copy, PartialEq, Eq, Structural, Debug)]
pub struct Duration {
    pub seconds: i64,
}

impl Duration {
    /// The span of `seconds` whole seconds.
    pub fn seconds(seconds: i64) -> (r: Duration)
        ensures
            r.seconds == seconds,
    {
        Duration { seconds }
    }

    /// The span of `minutes` whole minutes.
    pub fn minutes(minutes: i64) -> (r: Duration)
        requires
            60 * minutes <= i64::MAX,
            i64::MIN <= 60 * minutes,
        ensures
            r.seconds == 60 * minutes,
    {
        Duration { seconds: 60 * minutes }
    }

    /// The span of `hours` whole hours.
    pub fn hours(hours: i64) -> (r: Duration)
        requires
            3600 * hours <= i64::MAX,
            i64::MIN <= 3600 * hours,
        ensures
            r.seconds == 3600 * hours,
    {
        Duration { seconds: 3600 * hours }
    }

    /// The span of `days` whole calendar days.
    pub fn days(days: i64) -> (r: Duration)
        requires
            86400 * days <= i64::MAX,
            i64::MIN <= 86400 * days,
        ensures
            r.seconds == 86400 * days,
    {
        Duration { seconds: 86400 * days }
    }

    /// The span's length in whole seconds.
    pub fn num_seconds(&self) -> (r: i64)
        ensures
            r == self.seconds,
    {
        self.seconds
    }

    /// The number of whole minutes in the span.
    pub fn num_minutes(&self) -> (r: i64)
        requires
            0 <= self.seconds,
        ensures
            r == self.seconds as int / 60,
    {
        self.seconds / 60
    }

    /// The number of whole hours in the span.
    pub fn num_hours(&self) -> (r: i64)
        requires
            0 <= self.seconds,
        ensures
            r == self.seconds as int / 3600,
    {
        self.seconds / 3600
    }

    /// The number of whole calendar days in the span.
    pub fn num_days(&self) -> (r: i64)
        requires
            0 <= self.seconds,
        ensures
            r == self.seconds as int / 86400,
    {
        self.seconds / 86400
    }
}

/// The number of workday-hours in a span of `s` seconds under a workday of
/// `workday` hours: every whole calendar day (24 h) of the span counts as
/// `workday` hours, and the remainder counts by its whole hours.
pub open spec fn spec_work_hours(s: int, workday: int) -> int {
    s / 3600 - (24 - workday) * (s / 86400)
}

/// The character of one decimal digit.
pub open spec fn digit_char(d: int) -> char {
    if d == 0 {
        '0'
    } else if d == 1 {
        '1'
    } else if d == 2 {
        '2'
    } else if d == 3 {
        '3'
    } else if d == 4 {
        '4'
    } else if d == 5 {
        '5'
    } else if d == 6 {
        '6'
    } else if d == 7 {
        '7'
    } else if d == 8 {
        '8'
    } else {
        '9'
    }
}

/// The decimal digits of `n`, most significant first, with no leading zero
/// except for `n == 0` itself.
pub open spec fn dec_digits(n: int) -> Seq<char>
    decreases n,
    when 0 <= n
{
    if n < 10 {
        seq![digit_char(n)]
    } else {
        dec_digits(n / 10).push(digit_char(n % 10))
    }
}

/// Writes `n` in decimal.
fn dec_string(n: u64) -> (s: String)
    ensures
        s@ == dec_digits(n as int),
    decreases n,
{
    let digits = "0123456789";
    proof {
        reveal_strlit("0123456789");
    }
    let d = (n % 10) as usize;
    let digit = digits.substring_char(d, d + 1);
    proof {
        assert(digit@ =~= seq![digit_char(n as int % 10)]);
    }
    if n < 10 {
        digit.to_owned()
    } else {
        let mut s = dec_string(n / 10);
        s.append(digit);
        proof {
            assert(s@ =~= dec_digits(n as int));
        }
        s
    }
}

/// A duration broken down for display: whole workdays, hours within the last
/// workday, and minutes within the last hour.
#[derive(Clone, Copy, PartialEq, Eq, Structural, Debug)]
pub struct WorkTime {
    pub days: i64,
    pub hours: i64,
    pub minutes: i64,
}

impl WorkTime {
    /// Breaks a duration down against a workday of `workday_hours` hours:
    /// the span's workday-hours (`spec_work_hours`) split into whole workdays
    /// and leftover hours, plus the whole minutes left over below one hour.
    /// Seconds below one minute are discarded.
    pub fn with_workday(duration: Duration, workday_hours: i64) -> (r: WorkTime)
        requires
            0 <= duration.seconds,
            1 <= workday_hours <= 24,
        ensures
            r.days == spec_work_hours(duration.seconds as int, workday_hours as int)
                / workday_hours as int,
            r.hours == spec_work_hours(duration.seconds as int, workday_hours as int)
                % workday_hours as int,
            r.minutes == (duration.seconds as int % 3600) / 60,
            workday_hours * r.days + r.hours
                == spec_work_hours(duration.seconds as int, workday_hours as int),
            0 <= r.days,
            0 <= r.hours < workday_hours,
            0 <= r.minutes < 60,
    {
        let s = duration.seconds;
        let ghost si = s as int;
        let ghost w = workday_hours as int;

        // Whole calendar days in the span.
        let days_cal = s / 86400;
        proof {
            lemma_fundamental_div_mod(si, 86400);
            lemma_mul_nonnegative(24 - w, si / 86400);
            lemma_mul_inequality((24 - w) * 3600, 86400, si / 86400);
            assert((24 - w) * 3600 * (si / 86400) == 3600 * ((24 - w) * (si / 86400)))
                by (nonlinear_arith);
        }

        // Re-base each calendar day onto a workday: drop the hours beyond the
        // workday from every whole day.
        let rebase = (24 - workday_hours) * 3600 * days_cal;
        let rem = s - rebase;
        let ghost k = (24 - w) * (si / 86400);
        proof {
            lemma_fundamental_div_mod(si, 3600);
            assert(rem == 3600 * (si / 3600 - k) + si % 3600);
            lemma_fundamental_div_mod_converse(rem as int, 3600, si / 3600 - k, si % 3600);
        }

        // Workday-hours in the whole span, then split into days and hours.
        let total_hours = rem / 3600;
        assert(total_hours == spec_work_hours(si, w));
        let days = total_hours / workday_hours;
        proof {
            lemma_fundamental_div_mod(total_hours as int, w);
            lemma_mul_nonnegative(w, total_hours as int / w);
        }
        proof {
            vstd::arithmetic::mul::lemma_mul_is_commutative(days as int, w);
            assert(days as int * w == w * (total_hours as int / w));
        }
        let day_seconds = 3600 * (days * workday_hours);
        let rem2 = rem - day_seconds;
        let ghost hq = total_hours as int % w;
        proof {
            assert(rem2 == 3600 * hq + si % 3600);
            lemma_fundamental_div_mod_converse(rem2 as int, 3600, hq, si % 3600);
        }
        let hours = rem2 / 3600;
        let rem3 = rem2 - 3600 * hours;
        let minutes = rem3 / 60;

        WorkTime { days, hours, minutes }
    }

    /// Breaks a duration down against the default workday of `WORK_DAY` hours.
    pub fn new(duration: Duration) -> (r: WorkTime)
        requires
            0 <= duration.seconds,
        ensures
            r.days == spec_work_hours(duration.seconds as int, WORK_DAY as int)
                / WORK_DAY as int,
            r.hours == spec_work_hours(duration.seconds as int, WORK_DAY as int)
                % WORK_DAY as int,
            r.minutes == (duration.seconds as int % 3600) / 60,
            WORK_DAY * r.days + r.hours
                == spec_work_hours(duration.seconds as int, WORK_DAY as int),
            0 <= r.days,
            0 <= r.hours < WORK_DAY,
            0 <= r.minutes < 60,
    {
        Self::with_workday(duration, WORK_DAY)
    }

    /// Breaks a span given in whole seconds down against the default workday.
    pub fn from_seconds(seconds: i64) -> (r: WorkTime)
        requires
            0 <= seconds,
        ensures
            r.days == spec_work_hours(seconds as int, WORK_DAY as int) / WORK_DAY as int,
            r.hours == spec_work_hours(seconds as int, WORK_DAY as int) % WORK_DAY as int,
            r.minutes == (seconds as int % 3600) / 60,
            WORK_DAY * r.days + r.hours == spec_work_hours(seconds as int, WORK_DAY as int),
    {
        Self::new(Duration::seconds(seconds))
    }

    /// The display form of the breakdown: the hour total and the minutes,
    /// as `"<total_hours> hours <minutes> minutes"`.
    pub fn display_string(&self) -> (r: String)
        requires
            0 <= self.days,
            0 <= self.hours,
            0 <= self.minutes,
            WORK_DAY * self.days + self.hours <= i64::MAX,
        ensures
            r@ == dec_digits(WORK_DAY * self.days + self.hours) + " hours "@ + dec_digits(
                self.minutes as int,
            ) + " minutes"@,
    {
        let total = self.total_hours();
        let mut out = dec_string(total as u64);
        out.append(" hours ");
        let minutes = dec_string(self.minutes as u64);
        out.append(minutes.as_str());
        out.append(" minutes");
        proof {
            assert(out@ =~= dec_digits(WORK_DAY * self.days + self.hours) + " hours "@
                + dec_digits(self.minutes as int) + " minutes"@);
        }
        out
    }

    /// The breakdown's hour count with days re-expanded: `WORK_DAY` hours for
    /// every workday, plus the leftover hours.
    pub fn total_hours(&self) -> (r: i64)
        requires
            0 <= self.days,
            0 <= self.hours,
            WORK_DAY * self.days + self.hours <= i64::MAX,
        ensures
            r == WORK_DAY * self.days + self.hours,
    {
        WORK_DAY * self.days + self.hours
    }
}

} // verus!
