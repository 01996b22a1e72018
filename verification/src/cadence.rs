//! How often a fixed-interval cadence fires.

use vstd::prelude::*;

verus! {

/// How many times a cadence fires at `now`: not at all while `now` is before
/// `deadline`, once at the deadline, and once more for every further whole
/// `interval` that has passed.
pub open spec fn ticks_due(deadline: int, interval: int, now: int) -> nat {
    if now < deadline {
        0
    } else {
        ((now - deadline) / interval + 1) as nat
    }
}

/// A cadence has fired often enough when its deadline has passed `now`, and
/// not too often when the deadline is no more than one interval ahead.
pub proof fn lemma_ticks_due_bounds(deadline: int, interval: int, now: int)
    requires
        interval > 0,
    ensures
        now < deadline + ticks_due(deadline, interval, now) * interval,
        ticks_due(deadline, interval, now) > 0 ==> deadline + ticks_due(deadline, interval, now)
            * interval <= now + interval,
{
    if now >= deadline {
        let elapsed = now - deadline;
        let whole = elapsed / interval;
        assert(whole * interval <= elapsed < whole * interval + interval) by (nonlinear_arith)
            requires
                elapsed >= 0,
                interval > 0,
                whole == elapsed / interval,
        ;
        assert((whole + 1) * interval == whole * interval + interval) by (nonlinear_arith);
    }
}

/// The count that [`lemma_ticks_due_bounds`] describes is the only one.
pub proof fn lemma_ticks_due_unique(deadline: int, interval: int, now: int, count: nat)
    requires
        interval > 0,
        now < deadline + count * interval,
        count > 0 ==> deadline + count * interval <= now + interval,
    ensures
        count == ticks_due(deadline, interval, now),
{
    if count > 0 {
        let elapsed = now - deadline;
        assert((count - 1) * interval == count * interval - interval) by (nonlinear_arith);
        assert(elapsed / interval == count - 1) by (nonlinear_arith)
            requires
                interval > 0,
                (count - 1) * interval <= elapsed < (count - 1) * interval + interval,
        ;
    }
}

/// A deadline that `now` has reached after `run` ticks means that more than
/// `run` ticks are due, so the next tick moves the deadline no further than
/// the whole catch-up does.
pub proof fn lemma_tick_is_due(deadline: int, interval: int, now: int, run: nat)
    requires
        interval > 0,
        deadline + run * interval <= now,
    ensures
        run < ticks_due(deadline, interval, now),
        deadline + (run + 1) * interval <= deadline + ticks_due(deadline, interval, now)
            * interval,
{
    let due = ticks_due(deadline, interval, now);
    lemma_ticks_due_bounds(deadline, interval, now);
    assert(run < due) by (nonlinear_arith)
        requires
            interval > 0,
            deadline + run * interval <= now,
            now < deadline + due * interval,
    ;
    assert((run + 1) * interval <= due * interval) by (nonlinear_arith)
        requires
            interval > 0,
            run + 1 <= due,
    ;
}

/// While a deadline is at most one interval ahead of `now`, the number of
/// ticks due is the time that has passed since the tick before the deadline,
/// in whole intervals, rounded down.
///
/// The premise holds at activation and after every wake-up (see
/// [`lemma_wake_moves_deadlines_past_now`]), so it holds at every wake-up of
/// a clock that does not run backwards.
pub proof fn lemma_ticks_due_is_elapsed_over_interval(deadline: int, interval: int, now: int)
    requires
        interval > 0,
        deadline - interval <= now,
    ensures
        ticks_due(deadline, interval, now) == (now - (deadline - interval)) / interval,
{
    let elapsed = now - (deadline - interval);
    if now < deadline {
        assert(elapsed / interval == 0) by (nonlinear_arith)
            requires
                0 <= elapsed < interval,
        ;
    } else {
        assert(elapsed / interval == (elapsed - interval) / interval + 1) by (nonlinear_arith)
            requires
                interval > 0,
                elapsed >= interval,
        ;
    }
}

/// Catching up in two steps runs the same ticks as catching up in one: the
/// ticks due at `earlier`, and then the ticks due at `later` from where the
/// first catch-up left the deadline, are together the ticks due at `later`.
pub proof fn lemma_ticks_due_in_two_steps(deadline: int, interval: int, earlier: int, later: int)
    requires
        interval > 0,
        earlier <= later,
    ensures
        ticks_due(deadline, interval, earlier) + ticks_due(
            deadline + ticks_due(deadline, interval, earlier) * interval,
            interval,
            later,
        ) == ticks_due(deadline, interval, later),
{
    let first = ticks_due(deadline, interval, earlier);
    let between = deadline + first * interval;
    let second = ticks_due(between, interval, later);
    lemma_ticks_due_bounds(deadline, interval, earlier);
    lemma_ticks_due_bounds(between, interval, later);
    assert((first + second) * interval == first * interval + second * interval)
        by (nonlinear_arith);
    lemma_ticks_due_unique(deadline, interval, later, first + second);
}

} // verus!
