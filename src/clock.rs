//! The current time, in whole seconds since the Unix epoch.
use vstd::prelude::*;

verus! {

/// Relies on `chrono::Utc::now` and `DateTime::timestamp`: the current UTC
/// time in whole seconds since the Unix epoch. On every target but the
/// browser one, `Utc::now` builds it from the system time's distance after
/// the epoch (and panics before it), so it is never negative.
#[verifier::external_body]
pub(crate) fn now_timestamp() -> (r: i64)
    ensures
        r >= 0,
{
    chrono::Utc::now().timestamp()
}

/// The day, counted from the Unix epoch, that holds the time `t`.
pub fn day_of(t: i64) -> (r: i64)
    ensures
        r == t / 86400,
{
    if t >= 0 {
        t / 86400
    } else {
        let back = -(t + 1);
        assert(t / 86400 == -(back / 86400) - 1) by (nonlinear_arith)
            requires
                back == -(t + 1),
                t < 0,
        ;
        -(back / 86400) - 1
    }
}

} // verus!
