//! Calendar dates, stored as plain year/month/day values.
//!
//! Dates carry no time component; the store keeps due dates, issue dates and
//! schedule dates in this form, and the schedule engine advances them by
//! whole days, weeks, months or years.

use vstd::prelude::*;

use crate::ServiceError;

verus! {

/// The earliest year a stored date may carry.
pub const MIN_YEAR: i32 = 1;

/// The latest year a stored date may carry; advancing a schedule past it is
/// reported as a store failure rather than wrapping.
pub const MAX_YEAR: i32 = 9999;

/// A calendar date. `month` runs from 1 to 12 and `day` from 1 to the length
/// of the month; `Date::new` is the checked constructor.
#[derive(Clone, Copy, Debug, PartialEq, Eq, Structural)]
pub struct Date {
    pub year: i32,
    pub month: u8,
    pub day: u8,
}

/// The mathematical value of a date: an unbounded year/month/day triple.
pub ghost struct DateVal {
    pub y: int,
    pub m: int,
    pub d: int,
}

impl View for Date {
    type V = DateVal;

    open spec fn view(&self) -> DateVal {
        DateVal { y: self.year as int, m: self.month as int, d: self.day as int }
    }
}

pub open spec fn is_leap_year(y: int) -> bool {
    (y % 4 == 0 && y % 100 != 0) || y % 400 == 0
}

pub open spec fn days_in_month_of(y: int, m: int) -> int {
    if m == 2 {
        if is_leap_year(y) {
            29
        } else {
            28
        }
    } else if m == 4 || m == 6 || m == 9 || m == 11 {
        30
    } else {
        31
    }
}

/// A month/day pair that names a real day of year `y`.
pub open spec fn valid_date(v: DateVal) -> bool {
    &&& 1 <= v.m <= 12
    &&& 1 <= v.d <= days_in_month_of(v.y, v.m)
}

/// A date the store can hold: a real day in a bounded range of years.
pub open spec fn date_in_range(v: DateVal) -> bool {
    &&& valid_date(v)
    &&& MIN_YEAR as int <= v.y <= MAX_YEAR as int
}

/// Lexicographic order on (year, month, day): `a` is strictly earlier.
pub open spec fn date_lt(a: DateVal, b: DateVal) -> bool {
    ||| a.y < b.y
    ||| (a.y == b.y && a.m < b.m)
    ||| (a.y == b.y && a.m == b.m && a.d < b.d)
}

pub open spec fn date_le(a: DateVal, b: DateVal) -> bool {
    date_lt(a, b) || a == b
}

/// The day after `v`.
pub open spec fn next_day_val(v: DateVal) -> DateVal {
    if v.d < days_in_month_of(v.y, v.m) {
        DateVal { y: v.y, m: v.m, d: v.d + 1 }
    } else if v.m < 12 {
        DateVal { y: v.y, m: v.m + 1, d: 1 }
    } else {
        DateVal { y: v.y + 1, m: 1, d: 1 }
    }
}

/// `v` advanced by `n` days.
pub open spec fn add_days_val(v: DateVal, n: nat) -> DateVal
    decreases n,
{
    if n == 0 {
        v
    } else {
        next_day_val(add_days_val(v, (n - 1) as nat))
    }
}

/// `v` advanced by `n` calendar months, the day clamped to the target
/// month's length.
pub open spec fn add_months_val(v: DateVal, n: nat) -> DateVal {
    let mi = v.y * 12 + (v.m - 1) + n;
    let y2 = mi / 12;
    let m2 = mi % 12 + 1;
    DateVal { y: y2, m: m2, d: if v.d <= days_in_month_of(y2, m2) { v.d } else { days_in_month_of(y2, m2) } }
}

impl Date {
    /// Whether this value names a real day in the storable range of years.
    pub fn in_range(&self) -> (r: bool)
        ensures
            r == date_in_range(self@),
    {
        MIN_YEAR <= self.year && self.year <= MAX_YEAR && 1 <= self.month && self.month <= 12
            && 1 <= self.day && self.day <= days_in_month(self.year, self.month)
    }

    /// Whether this date falls on or before the other.
    pub fn on_or_before(&self, other: &Date) -> (r: bool)
        ensures
            r == date_le(self@, other@),
    {
        self.year < other.year || (self.year == other.year && (self.month < other.month || (
        self.month == other.month && self.day <= other.day)))
    }

    /// Checked constructor: accepts exactly the dates the store can hold.
    pub fn new(year: i32, month: u8, day: u8) -> (r: Result<Date, ServiceError>)
        ensures
            r matches Ok(d) ==> d@ == (DateVal { y: year as int, m: month as int, d: day as int })
                && date_in_range(d@),
            r is Ok <==> date_in_range(DateVal { y: year as int, m: month as int, d: day as int }),
            r is Err ==> r == Err::<Date, ServiceError>(ServiceError::InvalidInput),
    {
        if MIN_YEAR <= year && year <= MAX_YEAR && 1 <= month && month <= 12 && 1 <= day
            && day <= days_in_month(year, month) {
            Ok(Date { year, month, day })
        } else {
            Err(ServiceError::InvalidInput)
        }
    }
}

/// The number of days in month `m` of year `y`.
pub fn days_in_month(y: i32, m: u8) -> (r: u8)
    requires
        1 <= m <= 12,
    ensures
        r as int == days_in_month_of(y as int, m as int),
{
    if m == 2 {
        if (y % 4 == 0 && y % 100 != 0) || y % 400 == 0 {
            29
        } else {
            28
        }
    } else if m == 4 || m == 6 || m == 9 || m == 11 {
        30
    } else {
        31
    }
}

/// The day after `d`; callers keep the year below `MAX_YEAR + 1` so the
/// result is representable.
fn next_day(d: Date) -> (r: Date)
    requires
        valid_date(d@),
        d@.y <= MAX_YEAR as int,
    ensures
        r@ == next_day_val(d@),
        valid_date(r@),
{
    let dim = days_in_month(d.year, d.month);
    if d.day < dim {
        Date { year: d.year, month: d.month, day: d.day + 1 }
    } else if d.month < 12 {
        Date { year: d.year, month: d.month + 1, day: 1 }
    } else {
        Date { year: d.year + 1, month: 1, day: 1 }
    }
}

/// Advancing by a day keeps the date well formed.
pub proof fn lemma_next_day_valid(v: DateVal)
    requires
        valid_date(v),
    ensures
        valid_date(next_day_val(v)),
        date_lt(v, next_day_val(v)),
        next_day_val(v).y <= v.y + 1,
        v.y <= next_day_val(v).y,
{
}

/// Advancing by days keeps the date well formed, never moves it earlier,
/// and bounds how far the year can move.
pub proof fn lemma_add_days_valid(v: DateVal, n: nat)
    requires
        valid_date(v),
    ensures
        valid_date(add_days_val(v, n)),
        date_le(v, add_days_val(v, n)),
        n > 0 ==> date_lt(v, add_days_val(v, n)),
        v.y <= add_days_val(v, n).y,
    decreases n,
{
    if n > 0 {
        lemma_add_days_valid(v, (n - 1) as nat);
        lemma_next_day_valid(add_days_val(v, (n - 1) as nat));
    }
}

/// `d` advanced by `n` days, or an error once the result would leave the
/// representable range of years.
pub fn add_days(d: Date, n: u64) -> (r: Result<Date, ServiceError>)
    requires
        date_in_range(d@),
    ensures
        r matches Ok(e) ==> e@ == add_days_val(d@, n as nat) && date_in_range(e@),
        r is Ok <==> add_days_val(d@, n as nat).y <= MAX_YEAR as int,
        r is Err ==> r == Err::<Date, ServiceError>(ServiceError::Internal),
{
    let mut cur = d;
    let mut i: u64 = 0;
    while i < n
        invariant
            date_in_range(cur@),
            i <= n,
            cur@ == add_days_val(d@, i as nat),
            valid_date(d@),
        decreases n - i,
    {
        proof {
            lemma_next_day_valid(cur@);
        }
        let nx = next_day(cur);
        if nx.year > MAX_YEAR {
            proof {
                // the year never moves back, so every later day is out of range too
                lemma_days_year_monotone(d@, (i + 1) as nat, n as nat);
            }
            return Err(ServiceError::Internal);
        }
        cur = nx;
        i = i + 1;
    }
    Ok(cur)
}

/// The year after `j` days never exceeds the year after `n >= j` days.
pub proof fn lemma_days_year_monotone(v: DateVal, j: nat, n: nat)
    requires
        valid_date(v),
        j <= n,
    ensures
        add_days_val(v, j).y <= add_days_val(v, n).y,
    decreases n,
{
    if j < n {
        lemma_days_year_monotone(v, j, (n - 1) as nat);
        lemma_add_days_valid(v, (n - 1) as nat);
        lemma_next_day_valid(add_days_val(v, (n - 1) as nat));
    }
}

/// Advancing by whole months keeps the date well formed and, for `n >= 1`,
/// moves it strictly later.
pub proof fn lemma_add_months_valid(v: DateVal, n: nat)
    requires
        valid_date(v),
    ensures
        valid_date(add_months_val(v, n)),
        date_le(v, add_months_val(v, n)),
        n > 0 ==> date_lt(v, add_months_val(v, n)),
        v.y <= add_months_val(v, n).y,
        add_months_val(v, n).y * 12 + add_months_val(v, n).m == v.y * 12 + v.m + n,
{
    let mi = v.y * 12 + (v.m - 1) + n;
    let y2 = mi / 12;
    let m2 = mi % 12 + 1;
    assert(y2 * 12 + (m2 - 1) == mi) by {
        vstd::arithmetic::div_mod::lemma_fundamental_div_mod(mi, 12);
    };
    assert(0 <= mi % 12 < 12) by {
        vstd::arithmetic::div_mod::lemma_mod_bound(mi, 12);
    };
    assert(v.y * 12 + (v.m - 1) <= mi);
    assert(v.y <= y2 && (v.y == y2 ==> v.m - 1 <= m2 - 1)) by (nonlinear_arith)
        requires
            y2 * 12 + (m2 - 1) == v.y * 12 + (v.m - 1) + n,
            1 <= v.m <= 12,
            1 <= m2 <= 12,
    ;
    if n > 0 {
        assert(v.y < y2 || (v.y == y2 && v.m < m2)) by (nonlinear_arith)
            requires
                y2 * 12 + (m2 - 1) == v.y * 12 + (v.m - 1) + n,
                1 <= v.m <= 12,
                1 <= m2 <= 12,
                n > 0,
        ;
    }
}

/// `d` advanced by `n` calendar months (clamping the day), or an error once
/// the result would leave the representable range of years.
pub fn add_months(d: Date, n: u64) -> (r: Result<Date, ServiceError>)
    requires
        date_in_range(d@),
        n <= 0x1_0000_0000_0000,
    ensures
        r matches Ok(e) ==> e@ == add_months_val(d@, n as nat) && date_in_range(e@),
        r is Ok <==> add_months_val(d@, n as nat).y <= MAX_YEAR as int,
        r is Err ==> r == Err::<Date, ServiceError>(ServiceError::Internal),
{
    proof {
        lemma_add_months_valid(d@, n as nat);
    }
    let mi: u64 = (d.year as u64) * 12 + (d.month as u64 - 1) + n;
    let y2: u64 = mi / 12;
    let m2: u8 = (mi % 12 + 1) as u8;
    if y2 > MAX_YEAR as u64 {
        return Err(ServiceError::Internal);
    }
    let y2i: i32 = y2 as i32;
    let dim = days_in_month(y2i, m2);
    let d2: u8 = if d.day <= dim {
        d.day
    } else {
        dim
    };
    Ok(Date { year: y2i, month: m2, day: d2 })
}

} // verus!
