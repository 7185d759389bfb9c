//! ISO-8601 UTC rendering: `YYYY-MM-DDTHH:MM:SSZ`.
//!
//! The stored seconds-since-epoch value is converted to proleptic Gregorian
//! UTC calendar fields and printed with fixed-width, zero-padded digits and
//! whole-second precision. Nanoseconds take no part in the rendering: two
//! timestamps with equal seconds render identically.
//!
//! The renderable range is the four-digit era: instants from
//! 0000-01-01T00:00:00Z through 9999-12-31T23:59:59Z. A seconds value whose
//! calendar year would fall outside `[0, 9999]` is rejected with
//! `FormatRangeError` rather than rendered or panicked on.

use vstd::prelude::*;
use vstd::string::StringExecFns;

use crate::timestamp::Et;
use crate::timestamp::EtError;

verus! {

/// Seconds from 0000-01-01T00:00:00Z to the Unix epoch, 1970-01-01T00:00:00Z
/// (719528 days of 86400 seconds).
pub const EPOCH_OFFSET_SECONDS: i64 = 62167219200;

/// A proleptic Gregorian leap year: divisible by 4 and not by 100, or
/// divisible by 400.
pub open spec fn is_leap_year(y: int) -> bool {
    (y % 4 == 0 && y % 100 != 0) || y % 400 == 0
}

/// Days in the calendar year `y`.
pub open spec fn days_in_year(y: int) -> int {
    if is_leap_year(y) {
        366
    } else {
        365
    }
}

/// Days in month `m` (1-based) of year `y`.
pub open spec fn days_in_month(y: int, m: int) -> int {
    if m == 2 {
        if is_leap_year(y) {
            29
        } else {
            28
        }
    } else if m == 4 || m == 6 || m == 9 || m == 11 {
        30
    } else {
        31
    }
}

/// Days in months `1 .. m` of year `y`: how many days of the year have passed
/// when month `m` begins.
pub open spec fn days_before_month(y: int, m: int) -> int
    decreases m,
{
    if m <= 1 {
        0
    } else {
        days_before_month(y, m - 1) + days_in_month(y, m - 1)
    }
}

/// Walks whole calendar years starting at year `y`: consumes one year's worth
/// of days at a time until fewer than a full year remains, yielding the year
/// reached and the day index within it.
pub open spec fn split_year(d: nat, y: nat) -> (nat, nat)
    decreases d,
{
    if d < days_in_year(y as int) {
        (y, d)
    } else {
        split_year((d - days_in_year(y as int)) as nat, (y + 1) as nat)
    }
}

/// Walks whole months of year `y` starting at month `m`: consumes one month's
/// worth of days at a time until fewer than a full month remains (or month 12
/// is reached), yielding the month reached and the day index within it.
pub open spec fn split_month(d: nat, y: nat, m: nat) -> (nat, nat)
    decreases 12 - m,
{
    if m >= 12 || d < days_in_month(y as int, m as int) {
        (m, d)
    } else {
        split_month((d - days_in_month(y as int, m as int)) as nat, y, (m + 1) as nat)
    }
}

/// The seconds value shifted so that 0000-01-01T00:00:00Z is zero.
pub open spec fn biased(sec: int) -> int {
    sec + EPOCH_OFFSET_SECONDS
}

/// Whole days since 0000-01-01.
pub open spec fn days_of(sec: int) -> nat
    recommends
        biased(sec) >= 0,
{
    (biased(sec) / 86400) as nat
}

/// Seconds past midnight of the day.
pub open spec fn second_of_day(sec: int) -> int
    recommends
        biased(sec) >= 0,
{
    biased(sec) % 86400
}

/// The UTC calendar year of the instant.
pub open spec fn year_of(sec: int) -> nat {
    split_year(days_of(sec), 0).0
}

/// The day index within the year (0-based).
pub open spec fn yday_of(sec: int) -> nat {
    split_year(days_of(sec), 0).1
}

/// The UTC calendar month of the instant (1-based).
pub open spec fn month_of(sec: int) -> nat {
    split_month(yday_of(sec), year_of(sec), 1).0
}

/// The UTC day of the month (1-based).
pub open spec fn mday_of(sec: int) -> nat {
    split_month(yday_of(sec), year_of(sec), 1).1 + 1
}

/// A seconds value is renderable exactly when it is on or after
/// 0000-01-01T00:00:00Z and its calendar year has at most four digits.
pub open spec fn renderable(sec: int) -> bool {
    &&& biased(sec) >= 0
    &&& year_of(sec) <= 9999
}

/// The decimal digit `d` as a character.
pub open spec fn digit_char(d: int) -> char {
    if d == 0 {
        '0'
    } else if d == 1 {
        '1'
    } else if d == 2 {
        '2'
    } else if d == 3 {
        '3'
    } else if d == 4 {
        '4'
    } else if d == 5 {
        '5'
    } else if d == 6 {
        '6'
    } else if d == 7 {
        '7'
    } else if d == 8 {
        '8'
    } else {
        '9'
    }
}

/// `n` as two decimal digits, zero-padded.
pub open spec fn pad2(n: int) -> Seq<char> {
    seq![digit_char(n / 10), digit_char(n % 10)]
}

/// `n` as four decimal digits, zero-padded.
pub open spec fn pad4(n: int) -> Seq<char> {
    seq![digit_char(n / 1000), digit_char((n / 100) % 10), digit_char((n / 10) % 10), digit_char(n % 10)]
}

/// The full rendering `YYYY-MM-DDTHH:MM:SSZ` of a renderable seconds value.
pub open spec fn spec_display(sec: int) -> Seq<char> {
    pad4(year_of(sec) as int) + seq!['-'] + pad2(month_of(sec) as int) + seq!['-'] + pad2(
        mday_of(sec) as int,
    ) + seq!['T'] + pad2(second_of_day(sec) / 3600) + seq![':'] + pad2(
        (second_of_day(sec) % 3600) / 60,
    ) + seq![':'] + pad2(second_of_day(sec) % 60) + seq!['Z']
}

/// Walking years can only move the year forward.
proof fn lemma_split_year_ge(d: nat, y: nat)
    ensures
        split_year(d, y).0 >= y,
    decreases d,
{
    if d >= days_in_year(y as int) {
        lemma_split_year_ge((d - days_in_year(y as int)) as nat, (y + 1) as nat);
    }
}

/// The twelve months of a year sum to the year's length.
proof fn lemma_months_cover_year(y: int)
    ensures
        days_before_month(y, 13) == days_in_year(y),
{
    reveal_with_fuel(days_before_month, 13);
}

/// Is `y` a leap year?
fn leap_year(y: u64) -> (b: bool)
    ensures
        b == is_leap_year(y as int),
{
    (y % 4 == 0 && y % 100 != 0) || y % 400 == 0
}

/// Days in calendar year `y`.
fn days_in_year_x(y: u64) -> (d: u64)
    ensures
        d == days_in_year(y as int),
{
    if leap_year(y) {
        366
    } else {
        365
    }
}

/// Days in month `m` of year `y`.
fn days_in_month_x(y: u64, m: u64) -> (d: u64)
    ensures
        d == days_in_month(y as int, m as int),
{
    if m == 2 {
        if leap_year(y) {
            29
        } else {
            28
        }
    } else if m == 4 || m == 6 || m == 9 || m == 11 {
        30
    } else {
        31
    }
}

/// The decimal digit `d` as a one-character string.
fn digit_str(d: u64) -> (r: &'static str)
    requires
        d < 10,
    ensures
        r@ == seq![digit_char(d as int)],
{
    proof {
        reveal_strlit("0");
        reveal_strlit("1");
        reveal_strlit("2");
        reveal_strlit("3");
        reveal_strlit("4");
        reveal_strlit("5");
        reveal_strlit("6");
        reveal_strlit("7");
        reveal_strlit("8");
        reveal_strlit("9");
    }
    let r: &'static str = if d == 0 {
        "0"
    } else if d == 1 {
        "1"
    } else if d == 2 {
        "2"
    } else if d == 3 {
        "3"
    } else if d == 4 {
        "4"
    } else if d == 5 {
        "5"
    } else if d == 6 {
        "6"
    } else if d == 7 {
        "7"
    } else if d == 8 {
        "8"
    } else {
        "9"
    };
    proof {
        assert(r@ =~= seq![digit_char(d as int)]);
    }
    r
}

/// Appends `v` as two zero-padded decimal digits.
fn push_pad2(out: &mut String, v: u64)
    requires
        v < 100,
    ensures
        final(out)@ == old(out)@ + pad2(v as int),
{
    out.append(digit_str(v / 10));
    out.append(digit_str(v % 10));
    proof {
        assert(out@ =~= old(out)@ + pad2(v as int));
    }
}

/// Appends `v` as four zero-padded decimal digits.
fn push_pad4(out: &mut String, v: u64)
    requires
        v < 10000,
    ensures
        final(out)@ == old(out)@ + pad4(v as int),
{
    out.append(digit_str(v / 1000));
    out.append(digit_str((v / 100) % 10));
    out.append(digit_str((v / 10) % 10));
    out.append(digit_str(v % 10));
    proof {
        assert(out@ =~= old(out)@ + pad4(v as int));
    }
}

impl Et {
    /// Renders the timestamp as `YYYY-MM-DDTHH:MM:SSZ`: the UTC calendar
    /// fields of the seconds value, zero-padded to fixed width, with whole
    /// second precision. Nanoseconds are deliberately not shown. A seconds
    /// value outside the renderable range yields `FormatRangeError`.
    #[verifier::loop_isolation(false)]
    pub fn to_display_string(&self) -> (r: Result<String, EtError>)
        ensures
            match r {
                Ok(s) => renderable(self.sec as int) && s@ == spec_display(self.sec as int),
                Err(e) => !renderable(self.sec as int) && e == EtError::FormatRangeError,
            },
    {
        if self.sec < -EPOCH_OFFSET_SECONDS {
            return Err(EtError::FormatRangeError);
        }
        let b: i128 = (self.sec as i128) + (EPOCH_OFFSET_SECONDS as i128);
        let biased_u: u64 = b as u64;
        proof {
            assert(biased_u == biased(self.sec as int));
        }
        let days: u64 = biased_u / 86400;
        let sod: u64 = biased_u % 86400;
        proof {
            assert(days == days_of(self.sec as int));
            assert(sod == second_of_day(self.sec as int));
        }
        let mut y: u64 = 0;
        let mut rem: u64 = days;
        while rem >= days_in_year_x(y)
            invariant
                y <= 9999,
                rem <= days,
                split_year(days as nat, 0) == split_year(rem as nat, y as nat),
            decreases rem,
        {
            let dy = days_in_year_x(y);
            if y >= 9999 {
                proof {
                    assert(split_year(rem as nat, y as nat) == split_year(
                        (rem - dy) as nat,
                        (y + 1) as nat,
                    ));
                    lemma_split_year_ge((rem - dy) as nat, (y + 1) as nat);
                }
                return Err(EtError::FormatRangeError);
            }
            let ghost rem0 = rem;
            let ghost y0 = y;
            rem = rem - dy;
            y = y + 1;
            proof {
                assert(split_year(rem0 as nat, y0 as nat) == split_year(rem as nat, y as nat));
            }
        }
        proof {
            assert(split_year(rem as nat, y as nat) == ((y as nat, rem as nat)));
            assert(year_of(self.sec as int) == y);
            assert(yday_of(self.sec as int) == rem);
        }
        let ghost doy = rem as nat;
        let mut m: u64 = 1;
        while m < 12 && rem >= days_in_month_x(y, m)
            invariant
                1 <= m <= 12,
                days_before_month(y as int, m as int) + rem == doy,
                split_month(doy, y as nat, 1) == split_month(rem as nat, y as nat, m as nat),
            decreases 12 - m,
        {
            let dm = days_in_month_x(y, m);
            let ghost rem0 = rem;
            let ghost m0 = m;
            rem = rem - dm;
            m = m + 1;
            proof {
                assert(split_month(rem0 as nat, y as nat, m0 as nat) == split_month(
                    rem as nat,
                    y as nat,
                    m as nat,
                ));
            }
        }
        proof {
            assert(split_month(rem as nat, y as nat, m as nat) == ((m as nat, rem as nat)));
            if m >= 12 {
                lemma_months_cover_year(y as int);
                assert(days_before_month(y as int, 13) == days_before_month(y as int, 12)
                    + days_in_month(y as int, 12));
            }
            assert(rem <= 30);
        }
        let day: u64 = rem + 1;
        proof {
            assert(month_of(self.sec as int) == m);
            assert(mday_of(self.sec as int) == day);
        }
        let hour: u64 = sod / 3600;
        let minute: u64 = (sod % 3600) / 60;
        let second: u64 = sod % 60;
        let mut out = String::new();
        push_pad4(&mut out, y);
        out.append("-");
        push_pad2(&mut out, m);
        out.append("-");
        push_pad2(&mut out, day);
        out.append("T");
        push_pad2(&mut out, hour);
        out.append(":");
        push_pad2(&mut out, minute);
        out.append(":");
        push_pad2(&mut out, second);
        out.append("Z");
        proof {
            reveal_strlit("-");
            reveal_strlit("T");
            reveal_strlit(":");
            reveal_strlit("Z");
            assert(out@ =~= spec_display(self.sec as int));
        }
        Ok(out)
    }
}

/// Precision-loss law of the rendering: the display string is a function of
/// the seconds field alone, so two timestamps with equal seconds — whatever
/// their nanoseconds — render to the identical string, and are renderable
/// under exactly the same condition.
pub proof fn lemma_display_ignores_nanoseconds(a: Et, b: Et)
    requires
        a.sec == b.sec,
    ensures
        spec_display(a.sec as int) == spec_display(b.sec as int),
        renderable(a.sec as int) == renderable(b.sec as int),
{
}

} // verus!
