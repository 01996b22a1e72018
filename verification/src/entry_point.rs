//! The scheduling driver: fixed-rate update ticks, one render pass per
//! wake-up and a one-second maintenance cadence, all read off one clock.

use crate::cadence::{
    lemma_tick_is_due, lemma_ticks_due_bounds, lemma_ticks_due_in_two_steps,
    lemma_ticks_due_is_elapsed_over_interval, lemma_ticks_due_unique, ticks_due,
};
use crate::call_log::{
    count_of, lemma_count_concat, lemma_count_push, lemma_wake_call_counts, repeated, wake_calls,
    AppCall,
};
use crate::event::WindowEvent;
use vstd::prelude::*;

verus! {

/// The length of the maintenance cadence: one second, in nanoseconds.
pub const ONE_SEC_TIME: u64 = 1_000_000_000;

/// What an application must offer to be driven by an [`EntryPoint`].
///
/// The driver decides when each method runs; what a method does is up to the
/// application, and the driver assumes nothing about it.
pub trait App: Sized {
    /// What the platform hands over once it is ready for the application:
    /// the window, the drawing surface, whatever the application draws on.
    type Surface;

    /// Makes the application on the surface that the platform provided.
    fn new(surface: Self::Surface) -> Self;

    /// Takes one platform event, in the order the platform delivered it.
    fn process_input(&mut self, input: WindowEvent);

    /// Advances the simulation by one update interval.
    fn update(&mut self);

    /// Does the once-a-second maintenance work.
    fn one_sec_update(&mut self);

    /// Draws one frame.
    fn render(&mut self);

    /// Whether the application wants to stop.
    fn should_close(&self) -> bool;
}

/// Where the driver is in its life.
#[derive(Clone, Copy, Debug, PartialEq, Eq, Structural)]
pub enum Phase {
    /// No application yet.
    Uninitialized,
    /// The application exists and is being ticked.
    Active,
    /// The application asked to stop; no tick runs any more.
    Terminated,
}

/// What the caller of [`EntryPoint::about_to_wait`] has to do next.
#[derive(Clone, Copy, Debug, PartialEq, Eq, Structural)]
pub enum WakeAction {
    /// Leave the event loop.
    Exit,
    /// Ask the platform for another wake-up.
    WakeAgain,
}

/// The driver as the contracts see it.
pub struct DriverState {
    pub phase: Phase,
    /// The update interval, in nanoseconds.
    pub update_span: u64,
    /// When the application was handed over.
    pub activated_at: int,
    /// The most update ticks that one wake-up runs; `None` for no limit.
    pub max_updates: Option<u64>,
    /// When the next update tick is due; `None` before activation.
    pub next_update_time: Option<int>,
    /// When the next maintenance tick is due; `None` before activation.
    pub next_one_sec_time: Option<int>,
    /// Every call made on the application so far, oldest first.
    pub calls: Seq<AppCall>,
}

impl DriverState {
    /// A driver that waits for its application.
    pub open spec fn created(update_span: u64, max_updates: Option<u64>) -> DriverState {
        DriverState {
            phase: Phase::Uninitialized,
            update_span,
            max_updates,
            activated_at: 0,
            next_update_time: None,
            next_one_sec_time: None,
            calls: Seq::empty(),
        }
    }

    /// The driver after it made its application at `now`: both cadences
    /// start one interval later.
    pub open spec fn resumed(self, now: u64) -> DriverState {
        DriverState {
            phase: Phase::Active,
            activated_at: now as int,
            next_update_time: Some(now + self.update_span),
            next_one_sec_time: Some(now + ONE_SEC_TIME),
            calls: self.calls.push(AppCall::New),
            ..self
        }
    }

    /// The driver after it passed `event` on.
    pub open spec fn window_event(self, event: WindowEvent) -> DriverState {
        DriverState { calls: self.calls.push(AppCall::ProcessInput(event)), ..self }
    }

    /// The update ticks that are due at `now`.
    pub open spec fn updates_due(self, now: u64) -> nat {
        ticks_due(self.next_update_time.unwrap(), self.update_span as int, now as int)
    }

    /// Whether more update ticks are due at `now` than one wake-up may run.
    pub open spec fn capped(self, now: u64) -> bool {
        match self.max_updates {
            Some(most) => self.updates_due(now) > most,
            None => false,
        }
    }

    /// The update ticks that a wake-up at `now` runs: those that are due, but
    /// no more than the limit allows.
    pub open spec fn updates_run(self, now: u64) -> nat {
        if self.capped(now) {
            self.max_updates.unwrap() as nat
        } else {
            self.updates_due(now)
        }
    }

    /// Where a wake-up at `now` leaves the update deadline: one interval on
    /// for every tick, or, where the limit cut the catch-up short, one
    /// interval after `now`.
    pub open spec fn update_time_after(self, now: u64) -> int {
        if self.capped(now) {
            now + self.update_span
        } else {
            self.next_update_time.unwrap() + self.updates_due(now) * self.update_span
        }
    }

    /// The maintenance ticks that a wake-up at `now` runs.
    pub open spec fn reports_due(self, now: u64) -> nat {
        ticks_due(self.next_one_sec_time.unwrap(), ONE_SEC_TIME as int, now as int)
    }

    /// Where a wake-up at `now` leaves the maintenance deadline: one second
    /// on for every tick.
    pub open spec fn one_sec_time_after(self, now: u64) -> int {
        self.next_one_sec_time.unwrap() + self.reports_due(now) * ONE_SEC_TIME
    }

    /// The driver after it asked the application whether it wants to stop
    /// and got `closing` for an answer.
    pub open spec fn polled(self, closing: bool) -> DriverState {
        DriverState { calls: self.calls.push(AppCall::ShouldClose(closing)), ..self }
    }

    /// The driver after the work of a wake-up at `now`, for an application
    /// that is `closing` or not.
    ///
    /// A terminated driver stays as it is. For a closing application the
    /// driver terminates and nothing else happens. Otherwise the update
    /// ticks run and move their deadline on, one frame is drawn, and every
    /// maintenance tick that is due runs and moves its deadline on by one
    /// second.
    pub open spec fn woken(self, now: u64, closing: bool) -> DriverState {
        if self.phase == Phase::Terminated {
            self
        } else if closing {
            DriverState { phase: Phase::Terminated, ..self }
        } else {
            DriverState {
                next_update_time: Some(self.update_time_after(now)),
                next_one_sec_time: Some(self.one_sec_time_after(now)),
                calls: self.calls + wake_calls(self.updates_run(now), self.reports_due(now)),
                ..self
            }
        }
    }

    /// The driver after a wake-up at `now`, where `closing` is what the
    /// application answers when it is asked whether it wants to stop.
    ///
    /// A terminated driver stays as it is and does not ask. Any other asks,
    /// and then does the work of the wake-up.
    pub open spec fn about_to_wait(self, now: u64, closing: bool) -> DriverState {
        if self.phase == Phase::Terminated {
            self
        } else {
            self.polled(closing).woken(now, closing)
        }
    }

    /// The driver after a run of wake-ups at the times `nows`, oldest first,
    /// none of which finds the application closing.
    pub open spec fn woken_at_each(self, nows: Seq<u64>) -> DriverState
        decreases nows.len(),
    {
        if nows.len() == 0 {
            self
        } else {
            self.woken_at_each(nows.drop_last()).about_to_wait(nows.last(), false)
        }
    }

    /// Whether `now` is so far from the end of the clock's range that a
    /// deadline one interval later is still within it. An activation needs
    /// this, and it is enough for a wake-up (see [`lemma_in_range_can_wake`]).
    pub open spec fn in_range(self, now: u64) -> bool {
        &&& now + self.update_span <= u64::MAX
        &&& now + ONE_SEC_TIME <= u64::MAX
    }

    /// Whether a wake-up at `now` leaves both deadlines within the range of
    /// the clock. Only an active driver moves its deadlines.
    pub open spec fn can_wake_at(self, now: u64) -> bool {
        self.phase == Phase::Active ==> {
            &&& self.update_time_after(now) <= u64::MAX
            &&& self.one_sec_time_after(now) <= u64::MAX
        }
    }

    /// What holds of every driver at all times.
    ///
    /// The update interval is positive. Before activation there are no
    /// deadlines and no call has been made. From activation on both deadlines
    /// exist. The maintenance deadline lies on its grid: as many whole
    /// seconds after the activation as maintenance ticks have run, and one
    /// more. So does the update deadline, in whole update intervals, unless
    /// the driver limits the update ticks of a wake-up.
    pub open spec fn inv(self) -> bool {
        &&& self.update_span > 0
        &&& self.phase == Phase::Uninitialized ==> {
            &&& self.next_update_time is None
            &&& self.next_one_sec_time is None
            &&& self.calls.len() == 0
        }
        &&& self.phase != Phase::Uninitialized ==> {
            &&& self.next_update_time is Some
            &&& self.max_updates is None ==> self.next_update_time == Some(
                self.activated_at + (count_of(self.calls, AppCall::Update) + 1) * self.update_span,
            )
            &&& self.next_one_sec_time == Some(
                self.activated_at + (count_of(self.calls, AppCall::OneSecUpdate) + 1)
                    * ONE_SEC_TIME,
            )
            &&& 0 <= self.activated_at
            &&& self.next_update_time.unwrap() <= u64::MAX
            &&& self.next_one_sec_time.unwrap() <= u64::MAX
        }
    }
}

/// Between two wake-ups exactly the ticks that are due run. A wake-up of
/// an active driver whose application goes on draws exactly one frame. It
/// runs the maintenance ticks that are due and moves their deadline on by
/// one whole second per tick. It runs the update ticks that are due and
/// moves their deadline on by one whole update interval per tick, unless
/// more are due than the driver's limit allows: then it runs as many as the
/// limit allows and puts the deadline one interval after `now`.
pub proof fn lemma_wake_runs_what_is_due(before: DriverState, now: u64)
    requires
        before.inv(),
        before.phase == Phase::Active,
    ensures
        ({
            let after = before.about_to_wait(now, false);
            &&& count_of(after.calls, AppCall::Update) == count_of(before.calls, AppCall::Update)
                + before.updates_run(now)
            &&& count_of(after.calls, AppCall::Render) == count_of(before.calls, AppCall::Render)
                + 1
            &&& count_of(after.calls, AppCall::OneSecUpdate) == count_of(
                before.calls,
                AppCall::OneSecUpdate,
            ) + before.reports_due(now)
            &&& after.next_one_sec_time == Some(
                before.next_one_sec_time.unwrap() + before.reports_due(now) * ONE_SEC_TIME,
            )
            &&& !before.capped(now) ==> {
                &&& before.updates_run(now) == before.updates_due(now)
                &&& after.next_update_time == Some(
                    before.next_update_time.unwrap() + before.updates_due(now)
                        * before.update_span,
                )
            }
            &&& before.capped(now) ==> {
                &&& before.updates_run(now) == before.max_updates.unwrap()
                &&& after.next_update_time == Some(now + before.update_span)
            }
        }),
{
    let asked = before.polled(false);
    let ran = wake_calls(before.updates_run(now), before.reports_due(now));
    lemma_count_push(before.calls, AppCall::ShouldClose(false), AppCall::Update);
    lemma_count_push(before.calls, AppCall::ShouldClose(false), AppCall::Render);
    lemma_count_push(before.calls, AppCall::ShouldClose(false), AppCall::OneSecUpdate);
    lemma_wake_call_counts(before.updates_run(now), before.reports_due(now));
    lemma_count_concat(asked.calls, ran, AppCall::Update);
    lemma_count_concat(asked.calls, ran, AppCall::Render);
    lemma_count_concat(asked.calls, ran, AppCall::OneSecUpdate);
}

/// A wake-up that finds the application closing, or the driver terminated,
/// runs no update tick, draws nothing, runs no maintenance tick and leaves
/// both deadlines where they were; afterwards the driver is terminated.
pub proof fn lemma_closing_wake_runs_nothing(before: DriverState, now: u64, closing: bool)
    requires
        before.phase != Phase::Uninitialized,
        closing || before.phase == Phase::Terminated,
    ensures
        ({
            let after = before.about_to_wait(now, closing);
            &&& after.phase == Phase::Terminated
            &&& count_of(after.calls, AppCall::Update) == count_of(before.calls, AppCall::Update)
            &&& count_of(after.calls, AppCall::Render) == count_of(before.calls, AppCall::Render)
            &&& count_of(after.calls, AppCall::OneSecUpdate) == count_of(
                before.calls,
                AppCall::OneSecUpdate,
            )
            &&& after.next_update_time == before.next_update_time
            &&& after.next_one_sec_time == before.next_one_sec_time
        }),
{
    lemma_count_push(before.calls, AppCall::ShouldClose(true), AppCall::Update);
    lemma_count_push(before.calls, AppCall::ShouldClose(true), AppCall::Render);
    lemma_count_push(before.calls, AppCall::ShouldClose(true), AppCall::OneSecUpdate);
}

/// A wake-up at a time that leaves room for one more interval of either
/// cadence keeps both deadlines within the range of the clock.
pub proof fn lemma_in_range_can_wake(before: DriverState, now: u64)
    requires
        before.inv(),
        before.in_range(now),
    ensures
        before.can_wake_at(now),
{
    if before.phase == Phase::Active {
        let updates = before.updates_due(now);
        let span = before.update_span as int;
        lemma_ticks_due_bounds(before.next_update_time.unwrap(), span, now as int);
        lemma_ticks_due_bounds(before.next_one_sec_time.unwrap(), ONE_SEC_TIME as int, now as int);
        assert(updates == 0 ==> updates * span == 0) by (nonlinear_arith);
    }
}

/// Deadlines never drift: the work of a wake-up keeps every deadline on its
/// grid, a whole number of intervals after the activation.
pub proof fn lemma_woken_keeps_inv(before: DriverState, now: u64, closing: bool)
    requires
        before.inv(),
        before.phase != Phase::Uninitialized,
        before.can_wake_at(now),
    ensures
        before.woken(now, closing).inv(),
{
    if before.phase == Phase::Active && !closing {
        let ran = wake_calls(before.updates_run(now), before.reports_due(now));
        lemma_wake_call_counts(before.updates_run(now), before.reports_due(now));
        lemma_count_concat(before.calls, ran, AppCall::Update);
        lemma_count_concat(before.calls, ran, AppCall::OneSecUpdate);
        let updates = before.updates_due(now);
        let span = before.update_span as int;
        assert((count_of(before.calls, AppCall::Update) + updates + 1) * span == (count_of(
            before.calls,
            AppCall::Update,
        ) + 1) * span + updates * span) by (nonlinear_arith);
    }
}

/// Deadlines never drift: a wake-up keeps every deadline on its grid, a
/// whole number of intervals after the activation.
pub proof fn lemma_about_to_wait_keeps_inv(before: DriverState, now: u64, closing: bool)
    requires
        before.inv(),
        before.phase != Phase::Uninitialized,
        before.can_wake_at(now),
    ensures
        before.about_to_wait(now, closing).inv(),
{
    if before.phase == Phase::Active {
        lemma_count_push(before.calls, AppCall::ShouldClose(closing), AppCall::Update);
        lemma_count_push(before.calls, AppCall::ShouldClose(closing), AppCall::OneSecUpdate);
        lemma_woken_keeps_inv(before.polled(closing), now, closing);
    }
}

/// After a wake-up that ticks, both deadlines lie after `now`; a cadence
/// that ran a tick had its last tick due, so that its deadline is no more
/// than one interval ahead of `now`; and a deadline that was no more than
/// one interval ahead of `now` before the wake-up is no more than one
/// interval ahead of it afterwards.
pub proof fn lemma_wake_moves_deadlines_past_now(before: DriverState, now: u64)
    requires
        before.inv(),
        before.phase == Phase::Active,
    ensures
        ({
            let after = before.about_to_wait(now, false);
            &&& now < after.next_update_time.unwrap()
            &&& now < after.next_one_sec_time.unwrap()
            &&& before.updates_run(now) > 0 ==> after.next_update_time.unwrap()
                - before.update_span <= now
            &&& before.reports_due(now) > 0 ==> after.next_one_sec_time.unwrap() - ONE_SEC_TIME
                <= now
            &&& before.next_update_time.unwrap() <= now + before.update_span
                ==> after.next_update_time.unwrap() <= now + before.update_span
            &&& before.next_one_sec_time.unwrap() <= now + ONE_SEC_TIME
                ==> after.next_one_sec_time.unwrap() <= now + ONE_SEC_TIME
        }),
{
    let updates = before.updates_due(now);
    let span = before.update_span as int;
    lemma_ticks_due_bounds(before.next_update_time.unwrap(), span, now as int);
    lemma_ticks_due_bounds(before.next_one_sec_time.unwrap(), ONE_SEC_TIME as int, now as int);
    assert(updates == 0 ==> updates * span == 0) by (nonlinear_arith);
}

/// Deadlines never move back: whatever the time of a wake-up and whatever
/// the application answers, each deadline is afterwards where it was or
/// later.
pub proof fn lemma_deadlines_never_move_back(before: DriverState, now: u64, closing: bool)
    requires
        before.inv(),
        before.phase != Phase::Uninitialized,
    ensures
        ({
            let after = before.about_to_wait(now, closing);
            &&& after.next_update_time is Some
            &&& after.next_one_sec_time is Some
            &&& before.next_update_time.unwrap() <= after.next_update_time.unwrap()
            &&& before.next_one_sec_time.unwrap() <= after.next_one_sec_time.unwrap()
        }),
{
    if before.phase == Phase::Active && !closing {
        let updates = before.updates_due(now);
        let span = before.update_span as int;
        assert(0 <= updates * span) by (nonlinear_arith)
            requires
                0 <= updates,
                0 < span,
        ;
    }
}

/// The two cadences do not influence each other: how many maintenance ticks
/// a wake-up runs, and where it leaves their deadline, depends on that
/// deadline and on `now` alone, whatever the update interval, the update
/// deadline and the limit on update ticks are; and how many update ticks it
/// runs does not depend on the maintenance deadline.
pub proof fn lemma_cadences_are_independent(one: DriverState, other: DriverState, now: u64)
    requires
        one.phase == Phase::Active,
        other.phase == Phase::Active,
    ensures
        one.next_one_sec_time == other.next_one_sec_time ==> {
            &&& one.reports_due(now) == other.reports_due(now)
            &&& one.about_to_wait(now, false).next_one_sec_time == other.about_to_wait(
                now,
                false,
            ).next_one_sec_time
        },
        one.next_update_time == other.next_update_time && one.update_span == other.update_span
            && one.max_updates == other.max_updates ==> {
            &&& one.updates_run(now) == other.updates_run(now)
            &&& one.about_to_wait(now, false).next_update_time == other.about_to_wait(
                now,
                false,
            ).next_update_time
        },
{
}

/// No tick is lost and none is made up. However a clock that does not run
/// backwards spaces the wake-ups of an active driver, when the last of them
/// is over the driver has drawn one frame per wake-up and has run the
/// maintenance ticks that one single wake-up at that last time would have
/// run, and their deadline has moved on by one whole second per tick. The
/// same holds of the update ticks and their deadline where the driver does
/// not limit the update ticks of a wake-up.
pub proof fn lemma_ticks_follow_the_clock(start: DriverState, nows: Seq<u64>)
    requires
        start.inv(),
        start.phase == Phase::Active,
        nows.len() > 0,
        forall|i: int| 0 <= i < nows.len() ==> start.in_range(#[trigger] nows[i]),
        forall|i: int, j: int| 0 <= i <= j < nows.len() ==> nows[i] <= nows[j],
    ensures
        ({
            let end = start.woken_at_each(nows);
            let updates = start.updates_due(nows.last());
            let reports = start.reports_due(nows.last());
            &&& end.inv()
            &&& end.phase == Phase::Active
            &&& end.update_span == start.update_span
            &&& end.max_updates == start.max_updates
            &&& count_of(end.calls, AppCall::Render) == count_of(start.calls, AppCall::Render)
                + nows.len()
            &&& count_of(end.calls, AppCall::OneSecUpdate) == count_of(
                start.calls,
                AppCall::OneSecUpdate,
            ) + reports
            &&& end.next_one_sec_time == Some(
                start.next_one_sec_time.unwrap() + reports * ONE_SEC_TIME,
            )
            &&& start.max_updates is None ==> {
                &&& count_of(end.calls, AppCall::Update) == count_of(
                    start.calls,
                    AppCall::Update,
                ) + updates
                &&& end.next_update_time == Some(
                    start.next_update_time.unwrap() + updates * start.update_span,
                )
            }
        }),
    decreases nows.len(),
{
    let earlier = nows.drop_last();
    let now = nows.last();
    let span = start.update_span as int;
    if earlier.len() == 0 {
        lemma_wake_runs_what_is_due(start, now);
        lemma_in_range_can_wake(start, now);
        lemma_about_to_wait_keeps_inv(start, now, false);
    } else {
        lemma_ticks_follow_the_clock(start, earlier);
        let middle = start.woken_at_each(earlier);
        let before = earlier.last();
        lemma_wake_runs_what_is_due(middle, now);
        lemma_in_range_can_wake(middle, now);
        lemma_about_to_wait_keeps_inv(middle, now, false);
        lemma_ticks_due_in_two_steps(
            start.next_update_time.unwrap(),
            span,
            before as int,
            now as int,
        );
        lemma_ticks_due_in_two_steps(
            start.next_one_sec_time.unwrap(),
            ONE_SEC_TIME as int,
            before as int,
            now as int,
        );
        let first_updates = start.updates_due(before);
        assert((first_updates + middle.updates_due(now)) * span == first_updates * span
            + middle.updates_due(now) * span) by (nonlinear_arith);
    }
}

/// From activation on, the ticks of a driver without a limit follow the
/// clock alone. After any run of wake-ups of a clock that does not run
/// backwards, the number of update ticks run is the time since activation in
/// whole update intervals, rounded down; the number of maintenance ticks run
/// is that time in whole seconds, rounded down; and each deadline is the
/// first point of its grid after the last wake-up.
pub proof fn lemma_ticks_since_activation(update_span: u64, activated_at: u64, nows: Seq<u64>)
    requires
        update_span > 0,
        nows.len() > 0,
        activated_at <= nows[0],
        forall|i: int|
            0 <= i < nows.len() ==> DriverState::created(update_span, None).in_range(
                #[trigger] nows[i],
            ),
        forall|i: int, j: int| 0 <= i <= j < nows.len() ==> nows[i] <= nows[j],
    ensures
        ({
            let end = DriverState::created(update_span, None).resumed(activated_at).woken_at_each(
                nows,
            );
            let elapsed = nows.last() - activated_at;
            &&& count_of(end.calls, AppCall::Update) == elapsed / (update_span as int)
            &&& count_of(end.calls, AppCall::OneSecUpdate) == elapsed / (ONE_SEC_TIME as int)
            &&& count_of(end.calls, AppCall::Render) == nows.len()
            &&& end.next_update_time == Some(
                activated_at + (elapsed / (update_span as int) + 1) * update_span,
            )
            &&& end.next_one_sec_time == Some(
                activated_at + (elapsed / (ONE_SEC_TIME as int) + 1) * ONE_SEC_TIME,
            )
        }),
{
    let created = DriverState::created(update_span, None);
    let start = created.resumed(activated_at);
    let span = update_span as int;
    let now = nows.last() as int;
    assert(created.in_range(nows[0]));
    lemma_count_push(created.calls, AppCall::New, AppCall::Update);
    lemma_count_push(created.calls, AppCall::New, AppCall::OneSecUpdate);
    lemma_count_push(created.calls, AppCall::New, AppCall::Render);
    assert((0 + 1) * span == span) by (nonlinear_arith);
    assert(start.inv());
    assert forall|i: int| 0 <= i < nows.len() implies start.in_range(#[trigger] nows[i]) by {
        assert(created.in_range(nows[i]));
    }
    lemma_ticks_follow_the_clock(start, nows);
    lemma_ticks_due_is_elapsed_over_interval(activated_at + span, span, now);
    lemma_ticks_due_is_elapsed_over_interval(
        activated_at + ONE_SEC_TIME,
        ONE_SEC_TIME as int,
        now,
    );
}

/// Drives one application at a fixed update rate.
///
/// The caller owns the clock and the platform: it hands over the surface
/// once the platform is ready ([`EntryPoint::resumed`]), every event as it
/// arrives ([`EntryPoint::window_event`]) and the time at every wake-up
/// ([`EntryPoint::about_to_wait`]), and it carries out the [`WakeAction`]
/// that a wake-up returns.
pub struct EntryPoint<T: App> {
    app: Option<T>,
    update_span: u64,
    max_updates: Option<u64>,
    next_update_time: Option<u64>,
    next_one_sec_time: Option<u64>,
    terminated: bool,
    activated_at: Ghost<int>,
    calls: Ghost<Seq<AppCall>>,
}

impl<T: App> View for EntryPoint<T> {
    type V = DriverState;

    closed spec fn view(&self) -> DriverState {
        DriverState {
            phase: if self.app is None {
                Phase::Uninitialized
            } else if self.terminated {
                Phase::Terminated
            } else {
                Phase::Active
            },
            update_span: self.update_span,
            max_updates: self.max_updates,
            activated_at: self.activated_at@,
            next_update_time: match self.next_update_time {
                Some(t) => Some(t as int),
                None => None,
            },
            next_one_sec_time: match self.next_one_sec_time {
                Some(t) => Some(t as int),
                None => None,
            },
            calls: self.calls@,
        }
    }
}

impl<T: App> EntryPoint<T> {
    /// The application that the driver owns, once it has one.
    pub closed spec fn owned_app(&self) -> Option<T> {
        self.app
    }

    /// A driver with the given update interval, in nanoseconds, that waits
    /// for its application. After a stall it makes up every update tick that
    /// was missed, however many there are.
    pub fn new(update_span: u64) -> (driver: Self)
        requires
            update_span > 0,
        ensures
            driver@ == DriverState::created(update_span, None),
            driver@.inv(),
    {
        Self {
            app: None,
            update_span,
            max_updates: None,
            next_update_time: None,
            next_one_sec_time: None,
            terminated: false,
            activated_at: Ghost(0),
            calls: Ghost(Seq::empty()),
        }
    }

    /// A driver like that of [`EntryPoint::new`], but one that runs at most
    /// `max_updates` update ticks per wake-up. Where more are due it drops
    /// the rest and starts its update cadence afresh from that wake-up.
    pub fn with_max_updates(update_span: u64, max_updates: u64) -> (driver: Self)
        requires
            update_span > 0,
        ensures
            driver@ == DriverState::created(update_span, Some(max_updates)),
            driver@.inv(),
    {
        Self {
            app: None,
            update_span,
            max_updates: Some(max_updates),
            next_update_time: None,
            next_one_sec_time: None,
            terminated: false,
            activated_at: Ghost(0),
            calls: Ghost(Seq::empty()),
        }
    }

    /// Makes the application on `surface` at time `now` and starts both
    /// cadences: the first update tick is due one update interval from now,
    /// the first maintenance tick one second from now. The application that
    /// the driver owns from now on is the one that `App::new` made.
    pub fn resumed(&mut self, surface: T::Surface, now: u64)
        requires
            old(self)@.inv(),
            old(self)@.phase == Phase::Uninitialized,
            old(self)@.in_range(now),
        ensures
            final(self)@ == old(self)@.resumed(now),
            final(self)@.inv(),
            final(self).owned_app() is Some,
            call_ensures(T::new, (surface,), final(self).owned_app().unwrap()),
    {
        self.app = Some(T::new(surface));
        self.next_update_time = Some(now + self.update_span);
        self.next_one_sec_time = Some(now + ONE_SEC_TIME);
        self.terminated = false;
        self.activated_at = Ghost(now as int);
        proof {
            lemma_count_push(self.calls@, AppCall::New, AppCall::Update);
            lemma_count_push(self.calls@, AppCall::New, AppCall::OneSecUpdate);
        }
        self.calls = Ghost(self.calls@.push(AppCall::New));
    }

    /// Passes one event on to the application, whatever the event is and
    /// whatever the driver has done before: the application is afterwards
    /// what one call of its `process_input` with `event` made of it.
    pub fn window_event(&mut self, event: WindowEvent)
        requires
            old(self)@.inv(),
            old(self)@.phase != Phase::Uninitialized,
        ensures
            final(self)@ == old(self)@.window_event(event),
            final(self)@.inv(),
            exists|app: &mut T|
                Some(mut_ref_current(app)) == old(self).owned_app() && Some(mut_ref_future(app))
                    == final(self).owned_app() && call_ensures(
                    T::process_input,
                    (app, event),
                    (),
                ),
    {
        match &mut self.app {
            Some(app) => {
                app.process_input(event);
            },
            None => {},
        }
        proof {
            lemma_count_push(self.calls@, AppCall::ProcessInput(event), AppCall::Update);
            lemma_count_push(self.calls@, AppCall::ProcessInput(event), AppCall::OneSecUpdate);
        }
        self.calls = Ghost(self.calls@.push(AppCall::ProcessInput(event)));
    }

    /// Asks the application whether it wants to stop, and hands on the answer
    /// of its `should_close`. The application stays as it is.
    fn ask_to_close(&mut self) -> (closing: bool)
        requires
            old(self)@.phase != Phase::Uninitialized,
        ensures
            final(self)@ == (DriverState {
                calls: old(self)@.calls.push(AppCall::ShouldClose(closing)),
                ..old(self)@
            }),
            final(self).owned_app() == old(self).owned_app(),
            call_ensures(T::should_close, (&old(self).owned_app().unwrap(),), closing),
    {
        let closing = match &self.app {
            Some(app) => app.should_close(),
            None => true,
        };
        self.calls = Ghost(self.calls@.push(AppCall::ShouldClose(closing)));
        closing
    }

    /// Runs one update tick: one call of the application's `update`.
    fn tick(&mut self)
        requires
            old(self)@.phase != Phase::Uninitialized,
        ensures
            final(self)@ == (DriverState {
                calls: old(self)@.calls.push(AppCall::Update),
                ..old(self)@
            }),
            exists|app: &mut T|
                Some(mut_ref_current(app)) == old(self).owned_app() && Some(mut_ref_future(app))
                    == final(self).owned_app() && call_ensures(T::update, (app,), ()),
    {
        match &mut self.app {
            Some(app) => {
                app.update();
            },
            None => {},
        }
        self.calls = Ghost(self.calls@.push(AppCall::Update));
    }

    /// Draws one frame: one call of the application's `render`.
    fn draw(&mut self)
        requires
            old(self)@.phase != Phase::Uninitialized,
        ensures
            final(self)@ == (DriverState {
                calls: old(self)@.calls.push(AppCall::Render),
                ..old(self)@
            }),
            exists|app: &mut T|
                Some(mut_ref_current(app)) == old(self).owned_app() && Some(mut_ref_future(app))
                    == final(self).owned_app() && call_ensures(T::render, (app,), ()),
    {
        match &mut self.app {
            Some(app) => {
                app.render();
            },
            None => {},
        }
        self.calls = Ghost(self.calls@.push(AppCall::Render));
    }

    /// Runs one maintenance tick: one call of the application's
    /// `one_sec_update`.
    fn report(&mut self)
        requires
            old(self)@.phase != Phase::Uninitialized,
        ensures
            final(self)@ == (DriverState {
                calls: old(self)@.calls.push(AppCall::OneSecUpdate),
                ..old(self)@
            }),
            exists|app: &mut T|
                Some(mut_ref_current(app)) == old(self).owned_app() && Some(mut_ref_future(app))
                    == final(self).owned_app() && call_ensures(T::one_sec_update, (app,), ()),
    {
        match &mut self.app {
            Some(app) => {
                app.one_sec_update();
            },
            None => {},
        }
        self.calls = Ghost(self.calls@.push(AppCall::OneSecUpdate));
    }

    /// Runs the update ticks of a wake-up at `now`: one for every update
    /// deadline that `now` has reached, each moving the deadline on by one
    /// interval, but no more than the limit allows. Where the limit leaves a
    /// tick undone, the deadline goes one interval after `now`.
    ///
    /// The result lists the application as it was before the first tick and
    /// after each tick.
    fn catch_up_updates(&mut self, now: u64) -> (states: Ghost<Seq<T>>)
        requires
            old(self)@.phase != Phase::Uninitialized,
            old(self)@.update_span > 0,
            old(self)@.next_update_time is Some,
            old(self)@.update_time_after(now) <= u64::MAX,
        ensures
            final(self)@ == (DriverState {
                next_update_time: Some(old(self)@.update_time_after(now)),
                calls: old(self)@.calls + repeated(AppCall::Update, old(self)@.updates_run(now)),
                ..old(self)@
            }),
            states@.len() == old(self)@.updates_run(now) + 1,
            Some(states@[0]) == old(self).owned_app(),
            Some(states@.last()) == final(self).owned_app(),
            forall|i: int|
                #![trigger states@[i]]
                0 <= i < states@.len() - 1 ==> exists|app: &mut T|
                    mut_ref_current(app) == states@[i] && mut_ref_future(app) == states@[i + 1]
                        && call_ensures(T::update, (app,), ()),
    {
        let ghost before = self@;
        let ghost mut states: Seq<T> = seq![self.app.unwrap()];
        let ghost first = before.next_update_time.unwrap();
        let ghost due = before.updates_due(now);
        let update_span: u64 = self.update_span;
        let mut next_update: u64 = match self.next_update_time {
            Some(time) => time,
            None => now,
        };
        let mut allowed: Option<u64> = self.max_updates;
        let ghost mut run: nat = 0;
        proof {
            lemma_ticks_due_bounds(first, update_span as int, now as int);
        }
        while now >= next_update && allowed != Some(0)
            invariant
                before.phase != Phase::Uninitialized,
                update_span > 0,
                due == ticks_due(first, update_span as int, now as int),
                due > 0 ==> first + due * update_span <= u64::MAX,
                next_update == first + run * update_span,
                run > 0 ==> next_update <= now + update_span,
                match allowed {
                    Some(left) => before.max_updates is Some && before.max_updates.unwrap() == run
                        + left,
                    None => before.max_updates is None,
                },
                self@ == (DriverState {
                    next_update_time: Some(next_update as int),
                    calls: before.calls + repeated(AppCall::Update, run),
                    ..before
                }),
                states.len() == run + 1,
                Some(states[0]) == old(self).owned_app(),
                Some(states.last()) == self.owned_app(),
                forall|i: int|
                    #![trigger states[i]]
                    0 <= i < states.len() - 1 ==> exists|app: &mut T|
                        mut_ref_current(app) == states[i] && mut_ref_future(app) == states[i + 1]
                            && call_ensures(T::update, (app,), ()),
            decreases now + update_span - next_update,
        {
            self.tick();
            proof {
                states = states.push(self.app.unwrap());
                lemma_tick_is_due(first, update_span as int, now as int, run);
                assert((run + 1) * update_span == run * update_span + update_span)
                    by (nonlinear_arith);
                assert((before.calls + repeated(AppCall::Update, run)).push(AppCall::Update)
                    =~= before.calls + repeated(AppCall::Update, run + 1));
                run = run + 1;
            }
            next_update = next_update + update_span;
            self.next_update_time = Some(next_update);
            allowed =
            match allowed {
                Some(left) => Some(left - 1),
                None => None,
            };
        }
        if now >= next_update {
            proof {
                lemma_tick_is_due(first, update_span as int, now as int, run);
            }
            self.next_update_time = Some(now + update_span);
        } else {
            proof {
                lemma_ticks_due_unique(first, update_span as int, now as int, run);
            }
        }
        Ghost(states)
    }

    /// Runs the maintenance ticks of a wake-up at `now`: one for every
    /// maintenance deadline that `now` has reached, each moving the deadline
    /// on by one second.
    ///
    /// The result lists the application as it was before the first tick and
    /// after each tick.
    fn catch_up_reports(&mut self, now: u64) -> (states: Ghost<Seq<T>>)
        requires
            old(self)@.phase != Phase::Uninitialized,
            old(self)@.next_one_sec_time is Some,
            old(self)@.one_sec_time_after(now) <= u64::MAX,
        ensures
            final(self)@ == (DriverState {
                next_one_sec_time: Some(old(self)@.one_sec_time_after(now)),
                calls: old(self)@.calls + repeated(
                    AppCall::OneSecUpdate,
                    old(self)@.reports_due(now),
                ),
                ..old(self)@
            }),
            states@.len() == old(self)@.reports_due(now) + 1,
            Some(states@[0]) == old(self).owned_app(),
            Some(states@.last()) == final(self).owned_app(),
            forall|i: int|
                #![trigger states@[i]]
                0 <= i < states@.len() - 1 ==> exists|app: &mut T|
                    mut_ref_current(app) == states@[i] && mut_ref_future(app) == states@[i + 1]
                        && call_ensures(T::one_sec_update, (app,), ()),
    {
        let ghost mut states: Seq<T> = seq![self.app.unwrap()];
        let ghost before = self@;
        let ghost first = before.next_one_sec_time.unwrap();
        let ghost due = before.reports_due(now);
        let mut next_one_sec: u64 = match self.next_one_sec_time {
            Some(time) => time,
            None => now,
        };
        let ghost mut run: nat = 0;
        while now >= next_one_sec
            invariant
                before.phase != Phase::Uninitialized,
                due == ticks_due(first, ONE_SEC_TIME as int, now as int),
                first + due * ONE_SEC_TIME <= u64::MAX,
                next_one_sec == first + run * ONE_SEC_TIME,
                run > 0 ==> next_one_sec <= now + ONE_SEC_TIME,
                self@ == (DriverState {
                    next_one_sec_time: Some(next_one_sec as int),
                    calls: before.calls + repeated(AppCall::OneSecUpdate, run),
                    ..before
                }),
                states.len() == run + 1,
                Some(states[0]) == old(self).owned_app(),
                Some(states.last()) == self.owned_app(),
                forall|i: int|
                    #![trigger states[i]]
                    0 <= i < states.len() - 1 ==> exists|app: &mut T|
                        mut_ref_current(app) == states[i] && mut_ref_future(app) == states[i + 1]
                            && call_ensures(T::one_sec_update, (app,), ()),
            decreases now + ONE_SEC_TIME - next_one_sec,
        {
            self.report();
            proof {
                states = states.push(self.app.unwrap());
                lemma_tick_is_due(first, ONE_SEC_TIME as int, now as int, run);
                assert((before.calls + repeated(AppCall::OneSecUpdate, run)).push(
                    AppCall::OneSecUpdate,
                ) =~= before.calls + repeated(AppCall::OneSecUpdate, run + 1));
                run = run + 1;
            }
            next_one_sec = next_one_sec + ONE_SEC_TIME;
            self.next_one_sec_time = Some(next_one_sec);
        }
        proof {
            lemma_ticks_due_unique(first, ONE_SEC_TIME as int, now as int, run);
        }
        Ghost(states)
    }

    /// Does the work of one wake-up at time `now` for an application that is
    /// `closing` or not, and says what the caller has to do next.
    ///
    /// A terminated driver answers `Exit` and touches nothing. For a closing
    /// application the driver terminates and answers `Exit`. Otherwise it
    /// runs one update tick for every update deadline that `now` has
    /// reached, each tick moving the deadline on by one update interval;
    /// then draws one frame; then runs one maintenance tick for every
    /// maintenance deadline that `now` has reached, each moving that
    /// deadline on by one second; and answers `WakeAgain`.
    ///
    /// A driver made by [`EntryPoint::new`] puts no limit on the update
    /// ticks of one wake-up: after a long stall it makes up every tick it
    /// missed. One made by [`EntryPoint::with_max_updates`] stops at its
    /// limit, and where an update tick is still due then, it puts the update
    /// deadline one interval after `now`.
    ///
    /// Where the answer is `Exit` the application is untouched. Where it is
    /// `WakeAgain` the application has gone through exactly these calls, in
    /// this order: `update` once per update tick, `render` once,
    /// `one_sec_update` once per maintenance tick. The contract says so over
    /// the values that the application took between the calls.
    pub fn wake(&mut self, now: u64, closing: bool) -> (action: WakeAction)
        requires
            old(self)@.inv(),
            old(self)@.phase != Phase::Uninitialized,
            old(self)@.can_wake_at(now),
        ensures
            action == if old(self)@.phase == Phase::Terminated || closing {
                WakeAction::Exit
            } else {
                WakeAction::WakeAgain
            },
            final(self)@ == old(self)@.woken(now, closing),
            final(self)@.inv(),
            old(self)@.phase == Phase::Terminated || closing ==> final(self).owned_app() == old(
                self,
            ).owned_app(),
            old(self)@.phase == Phase::Active && !closing ==> exists|states: Seq<T>|
                {
                    &&& states.len() == old(self)@.updates_run(now) + old(self)@.reports_due(now)
                        + 2
                    &&& Some(states[0]) == old(self).owned_app()
                    &&& Some(states.last()) == final(self).owned_app()
                    &&& forall|i: int|
                        #![trigger states[i]]
                        0 <= i < states.len() - 1 ==> exists|app: &mut T|
                            mut_ref_current(app) == states[i] && mut_ref_future(app) == states[i
                                + 1] && if i < old(self)@.updates_run(now) {
                                call_ensures(T::update, (app,), ())
                            } else if i == old(self)@.updates_run(now) {
                                call_ensures(T::render, (app,), ())
                            } else {
                                call_ensures(T::one_sec_update, (app,), ())
                            }
                },
    {
        if self.terminated {
            return WakeAction::Exit;
        }
        if closing {
            self.terminated = true;
            return WakeAction::Exit;
        }
        let ghost before = self@;
        let ticked = self.catch_up_updates(now);
        self.draw();
        let reported = self.catch_up_reports(now);
        proof {
            assert(self@.calls =~= before.calls + wake_calls(
                before.updates_run(now),
                before.reports_due(now),
            ));
            lemma_woken_keeps_inv(before, now, false);
            let updates = before.updates_run(now);
            let states = ticked@ + reported@;
            assert forall|i: int|
                #![trigger states[i]]
                0 <= i < states.len() - 1 implies exists|app: &mut T|
                mut_ref_current(app) == states[i] && mut_ref_future(app) == states[i + 1] && if i
                    < updates {
                    call_ensures(T::update, (app,), ())
                } else if i == updates {
                    call_ensures(T::render, (app,), ())
                } else {
                    call_ensures(T::one_sec_update, (app,), ())
                } by {
                if i < updates {
                    assert(states[i] == ticked@[i] && states[i + 1] == ticked@[i + 1]);
                } else if i == updates {
                    assert(states[i] == ticked@.last() && states[i + 1] == reported@[0]);
                } else {
                    let j = i - updates - 1;
                    assert(states[i] == reported@[j] && states[i + 1] == reported@[j + 1]);
                }
            }
        }
        WakeAction::WakeAgain
    }

    /// Does the work of one wake-up at time `now` and says what the caller
    /// has to do next.
    ///
    /// A terminated driver answers `Exit` and touches nothing. Otherwise the
    /// application is asked whether it wants to stop, and the driver goes on
    /// as [`EntryPoint::wake`] says for the answer that its `should_close`
    /// gave: `Exit` and an untouched application where it wants to stop, the
    /// ticks and the frame where it does not.
    pub fn about_to_wait(&mut self, now: u64) -> (action: WakeAction)
        requires
            old(self)@.inv(),
            old(self)@.phase != Phase::Uninitialized,
            old(self)@.can_wake_at(now),
        ensures
            final(self)@ == old(self)@.about_to_wait(now, action == WakeAction::Exit),
            final(self)@.inv(),
            old(self)@.phase == Phase::Terminated ==> action == WakeAction::Exit,
            old(self)@.phase == Phase::Active ==> call_ensures(
                T::should_close,
                (&old(self).owned_app().unwrap(),),
                action == WakeAction::Exit,
            ),
            action == WakeAction::Exit ==> final(self).owned_app() == old(self).owned_app(),
            action == WakeAction::WakeAgain ==> exists|states: Seq<T>|
                {
                    &&& states.len() == old(self)@.updates_run(now) + old(self)@.reports_due(now)
                        + 2
                    &&& Some(states[0]) == old(self).owned_app()
                    &&& Some(states.last()) == final(self).owned_app()
                    &&& forall|i: int|
                        #![trigger states[i]]
                        0 <= i < states.len() - 1 ==> exists|app: &mut T|
                            mut_ref_current(app) == states[i] && mut_ref_future(app) == states[i
                                + 1] && if i < old(self)@.updates_run(now) {
                                call_ensures(T::update, (app,), ())
                            } else if i == old(self)@.updates_run(now) {
                                call_ensures(T::render, (app,), ())
                            } else {
                                call_ensures(T::one_sec_update, (app,), ())
                            }
                },
    {
        if self.terminated {
            return WakeAction::Exit;
        }
        proof {
            lemma_count_push(self@.calls, AppCall::ShouldClose(true), AppCall::Update);
            lemma_count_push(self@.calls, AppCall::ShouldClose(true), AppCall::OneSecUpdate);
            lemma_count_push(self@.calls, AppCall::ShouldClose(false), AppCall::Update);
            lemma_count_push(self@.calls, AppCall::ShouldClose(false), AppCall::OneSecUpdate);
        }
        let closing = self.ask_to_close();
        self.wake(now, closing)
    }

    /// Where the driver is in its life.
    pub fn phase(&self) -> (phase: Phase)
        ensures
            phase == self@.phase,
    {
        if self.app.is_none() {
            Phase::Uninitialized
        } else if self.terminated {
            Phase::Terminated
        } else {
            Phase::Active
        }
    }

    /// The update interval, in nanoseconds.
    pub fn update_span(&self) -> (span: u64)
        ensures
            span == self@.update_span,
    {
        self.update_span
    }

    /// The most update ticks that one wake-up runs; `None` for no limit.
    pub fn max_updates(&self) -> (most: Option<u64>)
        ensures
            most == self@.max_updates,
    {
        self.max_updates
    }

    /// When the next update tick is due; `None` before activation.
    pub fn next_update_time(&self) -> (time: Option<u64>)
        ensures
            match time {
                Some(t) => self@.next_update_time == Some(t as int),
                None => self@.next_update_time is None,
            },
    {
        self.next_update_time
    }

    /// When the next maintenance tick is due; `None` before activation.
    pub fn next_one_sec_time(&self) -> (time: Option<u64>)
        ensures
            match time {
                Some(t) => self@.next_one_sec_time == Some(t as int),
                None => self@.next_one_sec_time is None,
            },
    {
        self.next_one_sec_time
    }

    /// The application, once the driver has one.
    pub fn app(&self) -> (app: Option<&T>)
        ensures
            match app {
                Some(a) => self.owned_app() == Some(*a),
                None => self.owned_app() is None,
            },
            app is Some <==> self@.phase != Phase::Uninitialized,
    {
        self.app.as_ref()
    }
}

} // verus!
