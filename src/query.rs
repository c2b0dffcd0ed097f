//! Patrol-time queries: the date range a command asks about, which stored
//! patrols fall in it, and their total time.
use crate::store::{Patrol, PatrolVoice};
use vstd::prelude::*;

verus! {

/// Seconds in a day.
pub const SECS_PER_DAY: i64 = 86400;

/// How many days back a query looks when it is given neither a number of
/// days nor a start date.
pub const DEFAULT_DAYS: i64 = 28;

/// Why the range of a query could not be formed.
#[derive(Clone, Copy, Debug, PartialEq, Eq, Structural)]
pub enum QueryError {
    /// A number of days and a start date were both given.
    DaysAndFromDate,
    /// A date or time out of the range of times.
    DateOverflow,
}

/// The day `days` days before `today` (days are counted from the Unix
/// epoch).
pub fn date_from_days(today: i64, days: i64) -> (r: Result<i64, QueryError>)
    ensures
        i64::MIN <= today - days <= i64::MAX ==> r == Ok::<i64, QueryError>((today - days) as i64),
        !(i64::MIN <= today - days <= i64::MAX) ==> r == Err::<i64, QueryError>(
            QueryError::DateOverflow,
        ),
{
    match today.checked_sub(days) {
        Some(d) => Ok(d),
        None => Err(QueryError::DateOverflow),
    }
}

/// The first day of a query: `from_date` when given, else `days` (28 when
/// not given) before `today`; both at once are refused.
pub open spec fn from_day(days: Option<i64>, from_date: Option<i64>, today: i64) -> Result<
    i64,
    QueryError,
> {
    match (days, from_date) {
        (Some(_), Some(_)) => Err(QueryError::DaysAndFromDate),
        (None, Some(f)) => Ok(f),
        _ => {
            let back = match days {
                Some(d) => d as int,
                None => DEFAULT_DAYS as int,
            };
            if i64::MIN <= today - back <= i64::MAX {
                Ok((today - back) as i64)
            } else {
                Err(QueryError::DateOverflow)
            }
        },
    }
}

/// The first day of a query from the command's options (see [`from_day`]).
pub fn resolve_from_date(days: Option<i64>, from_date: Option<i64>, today: i64) -> (r: Result<
    i64,
    QueryError,
>)
    ensures
        r == from_day(days, from_date, today),
{
    match (days, from_date) {
        (Some(_), Some(_)) => Err(QueryError::DaysAndFromDate),
        (None, Some(f)) => Ok(f),
        (Some(d), None) => date_from_days(today, d),
        (None, None) => date_from_days(today, DEFAULT_DAYS),
    }
}

/// The bounds, in seconds, of a query from the start of day `from_day` to
/// the last second of day `to_day`.
pub fn day_bounds(from_day: i64, to_day: i64) -> (r: Result<(i64, i64), QueryError>)
    ensures
        ({
            let lo = from_day * SECS_PER_DAY;
            let hi = to_day * SECS_PER_DAY + SECS_PER_DAY - 1;
            &&& i64::MIN <= lo <= i64::MAX && i64::MIN <= hi <= i64::MAX ==> r == Ok::<
                (i64, i64),
                QueryError,
            >((lo as i64, hi as i64))
            &&& !(i64::MIN <= lo <= i64::MAX && i64::MIN <= hi <= i64::MAX) ==> r == Err::<
                (i64, i64),
                QueryError,
            >(QueryError::DateOverflow)
        }),
{
    let lo = from_day as i128 * SECS_PER_DAY as i128;
    let hi = to_day as i128 * SECS_PER_DAY as i128 + (SECS_PER_DAY - 1) as i128;
    if lo < i64::MIN as i128 || lo > i64::MAX as i128 || hi < i64::MIN as i128 || hi > i64::MAX as i128 {
        return Err(QueryError::DateOverflow);
    }
    Ok((lo as i64, hi as i64))
}

/// A patrol answers a query for `officer_id` between `from` and `to`: it
/// starts strictly after `from` and ends strictly before `to`.
pub open spec fn in_query(p: Patrol, from: i64, to: i64, officer_id: u64) -> bool {
    p.start > from && p.end < to && p.officer_id == officer_id
}

/// Whether a stored patrol answers a query (see [`in_query`]).
pub fn is_in_query(p: &Patrol, from: i64, to: i64, officer_id: u64) -> (r: bool)
    ensures
        r == in_query(*p, from, to, officer_id),
{
    p.start > from && p.end < to && p.officer_id == officer_id
}

/// The total length, in seconds, of the patrols.
pub open spec fn total_time(patrols: Seq<(Patrol, Vec<PatrolVoice>)>) -> int
    decreases patrols.len(),
{
    if patrols.len() == 0 {
        0
    } else {
        total_time(patrols.drop_last()) + (patrols.last().0.end - patrols.last().0.start)
    }
}

/// Every running total, patrol after patrol, fits in an `i64`.
pub open spec fn totals_fit(patrols: Seq<(Patrol, Vec<PatrolVoice>)>) -> bool {
    forall|k: int|
        0 <= k <= patrols.len() ==> i64::MIN <= #[trigger] total_time(patrols.subrange(0, k))
            <= i64::MAX
}

/// The time on patrol, in seconds, over the patrols that a query returned;
/// `None` when a running total leaves the range of `i64`.
pub fn get_patrol_time(patrols: &Vec<(Patrol, Vec<PatrolVoice>)>) -> (r: Option<i64>)
    ensures
        totals_fit(patrols@) ==> r is Some && r->0 == total_time(patrols@),
        !totals_fit(patrols@) ==> r is None,
{
    let mut acc: i64 = 0;
    let mut i: usize = 0;
    let n = patrols.len();
    assert(patrols@.subrange(0, 0) =~= Seq::<(Patrol, Vec<PatrolVoice>)>::empty());
    while i < n
        invariant
            i <= n,
            n == patrols@.len(),
            acc == total_time(patrols@.subrange(0, i as int)),
            forall|k: int|
                0 <= k <= i ==> i64::MIN <= #[trigger] total_time(patrols@.subrange(0, k))
                    <= i64::MAX,
        decreases n - i,
    {
        let p = &patrols[i].0;
        let next = acc as i128 + (p.end as i128 - p.start as i128);
        assert(patrols@.subrange(0, i + 1).drop_last() =~= patrols@.subrange(0, i as int));
        if next < i64::MIN as i128 || next > i64::MAX as i128 {
            assert(total_time(patrols@.subrange(0, i + 1)) == next);
            return None;
        }
        acc = next as i64;
        i = i + 1;
    }
    assert(patrols@.subrange(0, n as int) =~= patrols@);
    Some(acc)
}

} // verus!
