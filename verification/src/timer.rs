//! The countdown state machine.
//!
//! A [`Timer`] never reads a clock. Every operation that depends on time
//! takes the current reading of a monotonic clock, in nanoseconds since an
//! origin of the caller's choosing, so that the behaviour is a function of
//! the arguments alone.

use vstd::prelude::*;

verus! {

/// Length of one countdown tick, in clock units (nanoseconds).
pub const NANOS_PER_SECOND: u64 = 1_000_000_000;

/// Where a timer is in its life.
#[derive(Debug, Clone, Copy, PartialEq, Eq, Structural)]
pub enum TimerState {
    /// Made or reset, and not started yet.
    Initial,
    /// Counting down.
    Running,
    /// Stopped by the user, with time left.
    Paused,
    /// Counted down to zero.
    Finished,
}

/// The mathematical value of a [`Timer`]: what its contracts speak of.
pub struct TimerView {
    pub state: TimerState,
    /// Whole seconds still to count down.
    pub remaining: nat,
    /// The duration the timer was made with; `reset` goes back to it.
    pub initial: nat,
    /// Clock reading up to which elapsed time has been consumed.
    pub anchor: nat,
}

impl TimerView {
    /// The invariant of every timer: the countdown never exceeds the duration
    /// it started from, and a finished timer shows zero.
    pub open spec fn wf(self) -> bool {
        &&& self.remaining <= self.initial
        &&& self.state == TimerState::Finished ==> self.remaining == 0
    }

    /// A new timer of `seconds` seconds.
    pub open spec fn fresh(seconds: nat) -> TimerView {
        TimerView { state: TimerState::Initial, remaining: seconds, initial: seconds, anchor: 0 }
    }

    /// `start` at clock reading `now`: a timer that is not yet running, or is
    /// paused, runs from `now`; any other timer is left as it is.
    pub open spec fn start(self, now: nat) -> TimerView {
        if self.state == TimerState::Initial || self.state == TimerState::Paused {
            TimerView { state: TimerState::Running, anchor: now, ..self }
        } else {
            self
        }
    }

    /// `pause`: a running timer stops counting and keeps its remaining time.
    pub open spec fn pause(self) -> TimerView {
        if self.state == TimerState::Running {
            TimerView { state: TimerState::Paused, ..self }
        } else {
            self
        }
    }

    /// `toggle_pause` at clock reading `now`.
    pub open spec fn toggle_pause(self, now: nat) -> TimerView {
        match self.state {
            TimerState::Running => self.pause(),
            TimerState::Paused | TimerState::Initial => self.start(now),
            TimerState::Finished => self,
        }
    }

    /// `reset`: back to the state the timer was made in.
    pub open spec fn reset(self) -> TimerView {
        TimerView::fresh(self.initial)
    }

    /// Whether a whole second lies between the anchor and `now`.
    pub open spec fn second_elapsed(self, now: nat) -> bool {
        now >= self.anchor + NANOS_PER_SECOND
    }

    /// `update` at clock reading `now`.
    ///
    /// Only a running timer changes. One with nothing left to count finishes
    /// at once. Otherwise, if a whole second has passed since the anchor, one
    /// second is consumed: the countdown drops by one, the anchor moves on by
    /// exactly one second, and the timer finishes if the countdown reached
    /// zero. At most one second is consumed by one update, however late
    /// `now` is.
    pub open spec fn update(self, now: nat) -> TimerView {
        if self.state != TimerState::Running {
            self
        } else if self.remaining == 0 {
            TimerView { state: TimerState::Finished, ..self }
        } else if self.second_elapsed(now) {
            TimerView {
                state: if self.remaining == 1 {
                    TimerState::Finished
                } else {
                    TimerState::Running
                },
                remaining: (self.remaining - 1) as nat,
                anchor: self.anchor + NANOS_PER_SECOND as nat,
                ..self
            }
        } else {
            self
        }
    }

    /// Whether `update` at `now` is the step that finishes the countdown.
    pub open spec fn completes(self, now: nat) -> bool {
        self.state == TimerState::Running && self.update(now).state == TimerState::Finished
    }

    /// The timer after one `update` at each reading of `nows`, in order.
    pub open spec fn update_all(self, nows: Seq<nat>) -> TimerView
        decreases nows.len(),
    {
        if nows.len() == 0 {
            self
        } else {
            self.update_all(nows.drop_last()).update(nows.last())
        }
    }

    /// How many of the updates of `update_all` finish the countdown.
    pub open spec fn completions(self, nows: Seq<nat>) -> nat
        decreases nows.len(),
    {
        if nows.len() == 0 {
            0
        } else if self.update_all(nows.drop_last()).completes(nows.last()) {
            self.completions(nows.drop_last()) + 1
        } else {
            self.completions(nows.drop_last())
        }
    }
}

/// A countdown timer. Its state is read through `state`, `remaining_seconds`
/// and `initial_seconds`, and changed through its operations alone.
pub struct Timer {
    state: TimerState,
    remaining_seconds: u32,
    initial_seconds: u32,
    last_tick: u64,
}

impl View for Timer {
    type V = TimerView;

    closed spec fn view(&self) -> TimerView {
        TimerView {
            state: self.state,
            remaining: self.remaining_seconds as nat,
            initial: self.initial_seconds as nat,
            anchor: self.last_tick as nat,
        }
    }
}

impl Timer {
    #[verifier::type_invariant]
    closed spec fn inv(self) -> bool {
        self@.wf()
    }

    /// Makes a timer of `seconds` seconds, not started yet.
    pub fn with_duration(seconds: u32) -> (timer: Timer)
        ensures
            timer@ == TimerView::fresh(seconds as nat),
            timer@.wf(),
    {
        Timer {
            state: TimerState::Initial,
            remaining_seconds: seconds,
            initial_seconds: seconds,
            last_tick: 0,
        }
    }

    /// Where the timer is in its life.
    pub fn state(&self) -> (state: TimerState)
        ensures
            state == self@.state,
            self@.wf(),
    {
        proof {
            use_type_invariant(self);
        }
        self.state
    }

    /// Whole seconds still to count down.
    pub fn remaining_seconds(&self) -> (seconds: u32)
        ensures
            seconds == self@.remaining,
            self@.wf(),
    {
        proof {
            use_type_invariant(self);
        }
        self.remaining_seconds
    }

    /// The duration the timer was made with.
    pub fn initial_seconds(&self) -> (seconds: u32)
        ensures
            seconds == self@.initial,
            self@.wf(),
    {
        proof {
            use_type_invariant(self);
        }
        self.initial_seconds
    }

    /// Starts or resumes the countdown at clock reading `now`. A timer that
    /// is running or finished is left as it is.
    pub fn start(&mut self, now: u64)
        ensures
            final(self)@ == old(self)@.start(now as nat),
            final(self)@.wf(),
    {
        proof {
            use_type_invariant(&*self);
        }
        if self.state == TimerState::Initial || self.state == TimerState::Paused {
            *self = Timer { state: TimerState::Running, last_tick: now, ..*self };
        }
    }

    /// Pauses a running countdown. Any other timer is left as it is.
    pub fn pause(&mut self)
        ensures
            final(self)@ == old(self)@.pause(),
            final(self)@.wf(),
    {
        proof {
            use_type_invariant(&*self);
        }
        if self.state == TimerState::Running {
            *self = Timer { state: TimerState::Paused, ..*self };
        }
    }

    /// Pauses a running timer, and starts one that is paused or not started
    /// yet, at clock reading `now`. A finished timer is left as it is.
    pub fn toggle_pause(&mut self, now: u64)
        ensures
            final(self)@ == old(self)@.toggle_pause(now as nat),
            final(self)@.wf(),
    {
        proof {
            use_type_invariant(&*self);
        }
        match self.state {
            TimerState::Running => self.pause(),
            TimerState::Paused | TimerState::Initial => self.start(now),
            TimerState::Finished => {},
        }
    }

    /// Puts the timer back as it was made: not started, with its full
    /// duration left.
    pub fn reset(&mut self)
        ensures
            final(self)@ == old(self)@.reset(),
            final(self)@.wf(),
    {
        *self = Timer::with_duration(self.initial_seconds);
    }

    /// Time integration: brings the countdown up to the clock reading `now`,
    /// by at most one second.
    ///
    /// A timer that is not running is left alone. A running timer that is a
    /// whole second behind `now` counts one second down, and its anchor moves
    /// on by that second, not to `now`: after a stall the countdown lags, and
    /// catches up by one second with each further call. A running timer with
    /// nothing left to count, which is one that was made with zero seconds,
    /// finishes at its first update, without waiting for a second to pass.
    ///
    /// Returns `true` on the one call that finishes the countdown, which is
    /// the moment to tell the user.
    pub fn update(&mut self, now: u64) -> (completed: bool)
        ensures
            final(self)@ == old(self)@.update(now as nat),
            final(self)@.wf(),
            completed == old(self)@.completes(now as nat),
    {
        proof {
            use_type_invariant(&*self);
        }
        if self.state != TimerState::Running {
            return false;
        }
        if self.remaining_seconds == 0 {
            *self = Timer { state: TimerState::Finished, ..*self };
            return true;
        }
        if now >= self.last_tick && now - self.last_tick >= NANOS_PER_SECOND {
            let remaining: u32 = self.remaining_seconds - 1;
            let completed = remaining == 0;
            *self = Timer {
                state: if completed {
                    TimerState::Finished
                } else {
                    TimerState::Running
                },
                remaining_seconds: remaining,
                last_tick: self.last_tick + NANOS_PER_SECOND,
                ..*self
            };
            return completed;
        }
        false
    }
}

/// Every operation keeps the invariant.
pub proof fn lemma_operations_keep_wf(t: TimerView, now: nat)
    requires
        t.wf(),
    ensures
        t.start(now).wf(),
        t.pause().wf(),
        t.toggle_pause(now).wf(),
        t.reset().wf(),
        t.update(now).wf(),
{
}

/// No operation changes the duration that `reset` goes back to.
pub proof fn lemma_initial_is_fixed(t: TimerView, now: nat)
    ensures
        t.start(now).initial == t.initial,
        t.pause().initial == t.initial,
        t.toggle_pause(now).initial == t.initial,
        t.reset().initial == t.initial,
        t.update(now).initial == t.initial,
{
}

/// The remaining time goes down in a running timer alone, and by `update`
/// alone: starting, pausing and toggling never touch it, and an update that
/// lowers it found the timer running.
pub proof fn lemma_remaining_changes_while_running(t: TimerView, now: nat)
    ensures
        t.start(now).remaining == t.remaining,
        t.pause().remaining == t.remaining,
        t.toggle_pause(now).remaining == t.remaining,
        t.update(now).remaining != t.remaining ==> t.state == TimerState::Running,
{
}

/// Resetting is idempotent: a second reset changes nothing, and after a
/// reset the timer is in its initial state with the full duration left.
pub proof fn lemma_reset_idempotent(t: TimerView)
    ensures
        t.reset().reset() == t.reset(),
        t.reset().state == TimerState::Initial,
        t.reset().remaining == t.initial,
{
}

/// One update never raises the remaining time, and lowers it by at most one
/// second.
pub proof fn lemma_update_never_increases(t: TimerView, now: nat)
    ensures
        t.update(now).remaining <= t.remaining <= t.update(now).remaining + 1,
{
}

/// However many updates follow one another, at whatever clock readings, the
/// remaining time never goes up, and each of them costs at most one second.
pub proof fn lemma_updates_never_increase(t: TimerView, nows: Seq<nat>)
    ensures
        t.update_all(nows).remaining <= t.remaining <= t.update_all(nows).remaining + nows.len(),
    decreases nows.len(),
{
    if nows.len() > 0 {
        lemma_updates_never_increase(t, nows.drop_last());
    }
}

/// A finished timer is changed by `reset` alone: starting, pausing, toggling
/// and updating all leave it exactly as it is.
pub proof fn lemma_finished_is_terminal(t: TimerView, now: nat)
    requires
        t.state == TimerState::Finished,
    ensures
        t.start(now) == t,
        t.pause() == t,
        t.toggle_pause(now) == t,
        t.update(now) == t,
        !t.completes(now),
{
}

/// An update changes nothing unless the timer is running and either has
/// nothing left to count or is a whole second behind the clock.
pub proof fn lemma_update_is_noop(t: TimerView, now: nat)
    requires
        t.state != TimerState::Running || (t.remaining > 0 && !t.second_elapsed(now)),
    ensures
        t.update(now) == t,
{
}

/// An update that finishes the countdown leaves a timer that no later update
/// finishes again.
pub proof fn lemma_completes_once(t: TimerView, now: nat, later: nat)
    requires
        t.completes(now),
    ensures
        !t.update(now).completes(later),
{
}

/// Of any number of updates that follow one another, at most one finishes
/// the countdown, and if one did, the timer is finished after them.
pub proof fn lemma_at_most_one_completion(t: TimerView, nows: Seq<nat>)
    ensures
        t.completions(nows) <= 1,
        t.completions(nows) == 1 ==> t.update_all(nows).state == TimerState::Finished,
        t.state != TimerState::Running ==> t.completions(nows) == 0,
    decreases nows.len(),
{
    if nows.len() > 0 {
        lemma_at_most_one_completion(t, nows.drop_last());
        if t.state != TimerState::Running {
            lemma_updates_keep_state_unless_running(t, nows.drop_last());
        }
    }
}

/// Updates change a timer that is not running in no way.
pub proof fn lemma_updates_keep_state_unless_running(t: TimerView, nows: Seq<nat>)
    requires
        t.state != TimerState::Running,
    ensures
        t.update_all(nows) == t,
    decreases nows.len(),
{
    if nows.len() > 0 {
        lemma_updates_keep_state_unless_running(t, nows.drop_last());
    }
}

/// A running timer with `n` seconds left, updated once in each of the next
/// `n` seconds, consumes one second per update and is finished after the
/// last of them, not before.
pub proof fn lemma_countdown_runs_out(t: TimerView, nows: Seq<nat>)
    requires
        t.wf(),
        t.state == TimerState::Running,
        t.remaining == nows.len(),
        nows.len() > 0,
        forall|i: int| 0 <= i < nows.len() ==> nows[i] >= t.anchor + (i + 1) * NANOS_PER_SECOND,
    ensures
        t.update_all(nows).state == TimerState::Finished,
        t.update_all(nows).remaining == 0,
        t.update_all(nows.drop_last()).state == TimerState::Running,
        t.completions(nows) == 1,
{
    lemma_countdown_progress(t, nows, (nows.len() - 1) as nat);
    lemma_at_most_one_completion(t, nows);
}

/// After the first `k` of the updates of `lemma_countdown_runs_out`, `k`
/// seconds are gone and the anchor has moved on by as many.
pub proof fn lemma_countdown_progress(t: TimerView, nows: Seq<nat>, k: nat)
    requires
        t.wf(),
        t.state == TimerState::Running,
        t.remaining >= k,
        t.remaining > 0,
        k <= nows.len(),
        forall|i: int| 0 <= i < nows.len() ==> nows[i] >= t.anchor + (i + 1) * NANOS_PER_SECOND,
    ensures
        t.update_all(nows.take(k as int)).remaining == t.remaining - k,
        t.update_all(nows.take(k as int)).anchor == t.anchor + k * NANOS_PER_SECOND,
        t.update_all(nows.take(k as int)).initial == t.initial,
        t.update_all(nows.take(k as int)).state == if k == t.remaining {
            TimerState::Finished
        } else {
            TimerState::Running
        },
    decreases k,
{
    if k > 0 {
        lemma_countdown_progress(t, nows, (k - 1) as nat);
        assert(nows.take(k as int).drop_last() =~= nows.take(k - 1));
    }
}

} // verus!
