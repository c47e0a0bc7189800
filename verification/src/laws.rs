//! Laws of the resolver, proved once and for all inputs.

use vstd::prelude::*;
use crate::date::lemma_day_number_injective;
use crate::resignation::ResolveError;
use crate::resignation::is_non_working_spec;
use crate::resignation::resolve_post;
use crate::resignation::resolve_spec;
use crate::resignation::walk_spec;
use crate::date::Date;

verus! {

/// Working days among the day numbers `lo ..= hi`.
pub open spec fn count_working_days(lo: int, hi: int, cal: Map<int, Seq<char>>) -> int
    decreases hi - lo + 1,
{
    if lo > hi {
        0
    } else {
        count_working_days(lo, hi - 1, cal) + if is_non_working_spec(hi, cal) {
            0int
        } else {
            1int
        }
    }
}

/// The walk never moves forward in time.
proof fn lemma_walk_le(day: int, remaining: nat, cal: Map<int, Seq<char>>)
    ensures
        walk_spec(day, remaining, cal) matches Some(d) ==> d <= day,
    decreases day,
{
    if remaining > 0 && day > 0 {
        lemma_walk_le(day - 1, remaining, cal);
        lemma_walk_le(day - 1, (remaining - 1) as nat, cal);
    }
}

/// A walk that still had balance to spend ends on a working day.
proof fn lemma_walk_ends_on_working_day(day: int, remaining: nat, cal: Map<int, Seq<char>>)
    requires
        remaining >= 1,
    ensures
        walk_spec(day, remaining, cal) matches Some(d) ==> !is_non_working_spec(d, cal),
    decreases day,
{
    if day > 0 {
        if is_non_working_spec(day - 1, cal) {
            lemma_walk_ends_on_working_day(day - 1, remaining, cal);
        } else if remaining > 1 {
            lemma_walk_ends_on_working_day(day - 1, (remaining - 1) as nat, cal);
        }
    }
}

/// A walk from `day` spends its balance exactly on the working days
/// between its end and `day - 1`.
proof fn lemma_walk_count(day: int, remaining: nat, cal: Map<int, Seq<char>>)
    ensures
        walk_spec(day, remaining, cal) matches Some(d) ==> count_working_days(d, day - 1, cal)
            == remaining,
    decreases day,
{
    if remaining > 0 && day > 0 {
        if is_non_working_spec(day - 1, cal) {
            lemma_walk_count(day - 1, remaining, cal);
            lemma_walk_le(day - 1, remaining, cal);
        } else {
            lemma_walk_count(day - 1, (remaining - 1) as nat, cal);
            lemma_walk_le(day - 1, (remaining - 1) as nat, cal);
        }
    }
}

/// Resolving spends the balance exactly: when `resolve` succeeds, its result
/// lies on or before the retirement date, is itself a working day, and the
/// working days from the result through the retirement date, both inclusive,
/// number exactly the balance.  With an empty calendar this counts every day
/// but Saturdays and Sundays.
pub proof fn lemma_resolve_exhausts_balance(
    retirement: int,
    balance: nat,
    cal: Map<int, Seq<char>>,
)
    ensures
        resolve_spec(retirement, balance, cal) matches Ok(d) ==> {
            &&& d <= retirement
            &&& !is_non_working_spec(d, cal)
            &&& count_working_days(d, retirement, cal) == balance
        },
{
    if balance > 0 {
        let start = if is_non_working_spec(retirement, cal) {
            balance
        } else {
            (balance - 1) as nat
        };
        lemma_walk_le(retirement, start, cal);
        lemma_walk_count(retirement, start, cal);
        if start >= 1 {
            lemma_walk_ends_on_working_day(retirement, start, cal);
        }
    }
}

/// Spending a balance in two legs is spending it in one.
proof fn lemma_walk_compose(day: int, r1: nat, r2: nat, cal: Map<int, Seq<char>>)
    ensures
        walk_spec(day, r1 + r2, cal) == match walk_spec(day, r1, cal) {
            Some(d) => walk_spec(d, r2, cal),
            None => None::<int>,
        },
    decreases day,
{
    if r1 > 0 && day > 0 {
        if is_non_working_spec(day - 1, cal) {
            lemma_walk_compose(day - 1, r1, r2, cal);
        } else {
            lemma_walk_compose(day - 1, (r1 - 1) as nat, r2, cal);
            assert((r1 + r2 - 1) as nat == ((r1 - 1) as nat) + r2);
        }
    }
}

/// One more day of balance moves the walk's end at least one day earlier.
proof fn lemma_walk_one_more_day(day: int, cal: Map<int, Seq<char>>)
    ensures
        walk_spec(day, 1, cal) matches Some(d) ==> d < day,
    decreases day,
{
    if day > 0 {
        if is_non_working_spec(day - 1, cal) {
            lemma_walk_one_more_day(day - 1, cal);
        } else {
            assert(walk_spec(day - 1, 0, cal) == Some(day - 1));
        }
    }
}

/// Monotonicity: one more day of leave balance, everything else fixed, never
/// moves the resolved start date later; whenever the larger balance
/// resolves, the smaller one does too, to a strictly later date.
pub proof fn lemma_resolve_monotone(retirement: int, balance: nat, cal: Map<int, Seq<char>>)
    requires
        balance >= 1,
    ensures
        resolve_spec(retirement, (balance + 1) as nat, cal) is Ok ==> resolve_spec(
            retirement,
            balance,
            cal,
        ) is Ok,
        resolve_spec(retirement, (balance + 1) as nat, cal) matches Ok(d2) ==> resolve_spec(
            retirement,
            balance,
            cal,
        ) matches Ok(d1) && d2 < d1,
{
    let start = if is_non_working_spec(retirement, cal) {
        balance
    } else {
        (balance - 1) as nat
    };
    assert(walk_spec(retirement, (start + 1) as nat, cal) == match walk_spec(
        retirement,
        start,
        cal,
    ) {
        Some(d) => walk_spec(d, 1, cal),
        None => None::<int>,
    }) by {
        lemma_walk_compose(retirement, start, 1, cal);
    }
    match walk_spec(retirement, start, cal) {
        Some(d1) => {
            lemma_walk_one_more_day(d1, cal);
        },
        None => {
        },
    }
}

/// The resolver is a pure function: its contract admits one result per
/// input, so two calls on identical inputs return identical results.
pub proof fn lemma_resolve_deterministic(
    retirement: int,
    balance: nat,
    cal: Map<int, Seq<char>>,
    r1: Result<Date, ResolveError>,
    r2: Result<Date, ResolveError>,
)
    requires
        resolve_post(retirement, balance, cal, r1),
        resolve_post(retirement, balance, cal, r2),
    ensures
        r1 == r2,
{
    match (r1, r2) {
        (Ok(d1), Ok(d2)) => {
            lemma_day_number_injective(
                d1.year as int,
                d1.month as int,
                d1.day as int,
                d2.year as int,
                d2.month as int,
                d2.day as int,
            );
        },
        _ => {
        },
    }
}

} // verus!
