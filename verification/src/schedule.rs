//! The recurring-invoice schedule engine.
//!
//! A recurring template names an interval unit, a positive interval count, a
//! start date and the date it last fired. The engine computes the next fire
//! date: the start date while the template has never fired, and otherwise the
//! last fire date advanced by `count` units.

use vstd::prelude::*;

use crate::ServiceError;
use crate::date::{
    Date, DateVal, MAX_YEAR, add_days, add_days_val, add_months, add_months_val, date_in_range,
    date_le, date_lt, lemma_add_days_valid, lemma_add_months_valid, valid_date,
};
use crate::text::str_eq;

verus! {

/// The fixed vocabulary of schedule interval units.
#[derive(Clone, Copy, Debug, PartialEq, Eq, Structural)]
pub enum IntervalUnit {
    Day,
    Week,
    Month,
    Year,
}

/// Recognizes exactly the interval vocabulary; anything else is rejected as
/// invalid input, so an unknown unit never reaches the store.
pub fn parse_interval(s: &str) -> (r: Result<IntervalUnit, ServiceError>)
    ensures
        r == Ok::<IntervalUnit, ServiceError>(IntervalUnit::Day) <==> s@ == "day"@,
        r == Ok::<IntervalUnit, ServiceError>(IntervalUnit::Week) <==> s@ == "week"@,
        r == Ok::<IntervalUnit, ServiceError>(IntervalUnit::Month) <==> s@ == "month"@,
        r == Ok::<IntervalUnit, ServiceError>(IntervalUnit::Year) <==> s@ == "year"@,
        r is Err <==> !(s@ == "day"@ || s@ == "week"@ || s@ == "month"@ || s@ == "year"@),
        r is Err ==> r == Err::<IntervalUnit, ServiceError>(ServiceError::InvalidInput),
{
    proof {
        reveal_strlit("day");
        reveal_strlit("week");
        reveal_strlit("month");
        reveal_strlit("year");
        assert("day"@.len() == 3 && "week"@.len() == 4 && "month"@.len() == 5 && "year"@.len()
            == 4);
        assert("week"@[0] == 'w' && "year"@[0] == 'y');
    }
    if str_eq(s, "day") {
        Ok(IntervalUnit::Day)
    } else if str_eq(s, "week") {
        Ok(IntervalUnit::Week)
    } else if str_eq(s, "month") {
        Ok(IntervalUnit::Month)
    } else if str_eq(s, "year") {
        Ok(IntervalUnit::Year)
    } else {
        Err(ServiceError::InvalidInput)
    }
}

/// A unit's string can be parsed back; the store invariant speaks of this.
pub open spec fn valid_interval_string(s: Seq<char>) -> bool {
    s == "day"@ || s == "week"@ || s == "month"@ || s == "year"@
}

/// The unit a valid interval string names.
pub open spec fn interval_of_string(s: Seq<char>) -> IntervalUnit {
    if s == "day"@ {
        IntervalUnit::Day
    } else if s == "week"@ {
        IntervalUnit::Week
    } else if s == "month"@ {
        IntervalUnit::Month
    } else {
        IntervalUnit::Year
    }
}

/// `from` advanced by `count` units.
pub open spec fn interval_advance_val(u: IntervalUnit, count: nat, from: DateVal) -> DateVal {
    match u {
        IntervalUnit::Day => add_days_val(from, count),
        IntervalUnit::Week => add_days_val(from, count * 7),
        IntervalUnit::Month => add_months_val(from, count),
        IntervalUnit::Year => add_months_val(from, count * 12),
    }
}

/// The next fire date of a template: its start date until it first fires,
/// then the last fire date advanced by `count` units.
pub open spec fn next_run_val(
    u: IntervalUnit,
    count: nat,
    start: DateVal,
    last: Option<DateVal>,
) -> DateVal {
    match last {
        None => start,
        Some(l) => interval_advance_val(u, count, l),
    }
}

/// Advancing a well-formed date by at least one unit yields a well-formed,
/// strictly later date whose year has not moved back.
pub proof fn lemma_advance_valid(u: IntervalUnit, count: nat, from: DateVal)
    requires
        valid_date(from),
        count >= 1,
    ensures
        valid_date(interval_advance_val(u, count, from)),
        date_lt(from, interval_advance_val(u, count, from)),
        from.y <= interval_advance_val(u, count, from).y,
{
    match u {
        IntervalUnit::Day => lemma_add_days_valid(from, count),
        IntervalUnit::Week => lemma_add_days_valid(from, count * 7),
        IntervalUnit::Month => lemma_add_months_valid(from, count),
        IntervalUnit::Year => lemma_add_months_valid(from, count * 12),
    }
}

/// The next fire date never falls before the template's start date: it is
/// the start date itself before the first firing, and moves strictly later
/// than the (already no-earlier-than-start) last fire date afterwards.
pub proof fn lemma_next_run_not_before_start(
    u: IntervalUnit,
    count: nat,
    start: DateVal,
    last: Option<DateVal>,
)
    requires
        count >= 1,
        valid_date(start),
        last matches Some(l) ==> valid_date(l) && date_le(start, l),
    ensures
        date_le(start, next_run_val(u, count, start, last)),
{
    match last {
        None => {},
        Some(l) => lemma_advance_valid(u, count, l),
    }
}

/// Each firing moves the next fire date strictly forward: recomputed from a
/// later last-fire date, it is strictly later than that date, hence strictly
/// later than any fire date already passed.
pub proof fn lemma_next_run_advances(u: IntervalUnit, count: nat, fired_on: DateVal)
    requires
        count >= 1,
        valid_date(fired_on),
    ensures
        date_lt(fired_on, interval_advance_val(u, count, fired_on)),
{
    lemma_advance_valid(u, count, fired_on);
}

/// `from` advanced by `count` units of `u`, or an error once the result
/// would leave the representable range of years.
pub fn advance(u: IntervalUnit, count: u32, from: Date) -> (r: Result<Date, ServiceError>)
    requires
        count >= 1,
        date_in_range(from@),
    ensures
        r matches Ok(e) ==> e@ == interval_advance_val(u, count as nat, from@) && date_in_range(
            e@,
        ),
        r is Ok <==> interval_advance_val(u, count as nat, from@).y <= MAX_YEAR as int,
        r is Err ==> r == Err::<Date, ServiceError>(ServiceError::Internal),
{
    match u {
        IntervalUnit::Day => add_days(from, count as u64),
        IntervalUnit::Week => add_days(from, (count as u64) * 7),
        IntervalUnit::Month => add_months(from, count as u64),
        IntervalUnit::Year => add_months(from, (count as u64) * 12),
    }
}

/// The next fire date of a template, per the schedule policy: the start date
/// while `last_run` is absent, and otherwise `last_run` advanced by `count`
/// units of `u`.
pub fn compute_next_run(
    u: IntervalUnit,
    count: u32,
    start: Date,
    last_run: Option<Date>,
) -> (r: Result<Date, ServiceError>)
    requires
        count >= 1,
        date_in_range(start@),
        last_run matches Some(l) ==> date_in_range(l@),
    ensures
        r matches Ok(e) ==> e@ == next_run_val(
            u,
            count as nat,
            start@,
            match last_run {
                None => None,
                Some(l) => Some(l@),
            },
        ) && date_in_range(e@),
        last_run is None ==> r == Ok::<Date, ServiceError>(start),
        r is Ok <==> next_run_val(
            u,
            count as nat,
            start@,
            match last_run {
                None => None,
                Some(l) => Some(l@),
            },
        ).y <= MAX_YEAR as int,
        r is Err ==> r == Err::<Date, ServiceError>(ServiceError::Internal),
{
    match last_run {
        None => Ok(start),
        Some(l) => advance(u, count, l),
    }
}

} // verus!
