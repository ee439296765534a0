//! The throttle decision engine: the per-instance state, the rule that picks
//! immediate execution, delayed replay, or a drop, and the bookkeeping that
//! each completed run performs.

use vstd::prelude::*;

verus! {

/// The abstract state of a throttle: the fixed interval, the time the last
/// completed run was recorded, whether a suppressed call waits to be
/// replayed, and whether a run is in flight.
pub ghost struct ThrottleView {
    pub interval: int,
    pub last_exec: int,
    pub dirty: bool,
    pub is_executing: bool,
}

/// The state a freshly constructed throttle starts in: the last run is
/// recorded at the epoch, so the first call finds a full interval elapsed.
pub open spec fn spec_initial(interval: int) -> ThrottleView {
    ThrottleView { interval: interval, last_exec: 0, dirty: false, is_executing: false }
}

/// A call observed at time `t` is eligible to run at once exactly when no run
/// is in flight and at least one interval has passed since the last run.
pub open spec fn spec_should_execute(v: ThrottleView, t: int) -> bool {
    &&& !v.is_executing
    &&& t - v.last_exec >= v.interval
}

/// The decision query's one side effect: a call that lands during the
/// cooldown marks the throttle dirty; every other outcome leaves the state
/// as it was.
pub open spec fn spec_after_should_execute(v: ThrottleView, t: int) -> ThrottleView {
    if !v.is_executing && t - v.last_exec < v.interval {
        ThrottleView { dirty: true, ..v }
    } else {
        v
    }
}

/// How long a caller at time `t` still has to wait before the current
/// interval window ends.
pub open spec fn spec_remaining(v: ThrottleView, t: int) -> int {
    v.interval - ((t - v.last_exec) % v.interval)
}

/// The delay handed to the replay path: the remaining time padded by one
/// millisecond, so that waking at the window's edge cannot land short of it
/// through clock rounding. The pad is dropped at the numeric limit.
pub open spec fn spec_delay_for(v: ThrottleView, t: int) -> int {
    if spec_remaining(v, t) < i32::MAX {
        spec_remaining(v, t) + 1
    } else {
        spec_remaining(v, t)
    }
}

/// The state recorded when a run completes at time `t`: the completion time
/// becomes the new reference point and both flags are cleared.
pub open spec fn spec_after_executed(v: ThrottleView, t: int) -> ThrottleView {
    ThrottleView { interval: v.interval, last_exec: t, dirty: false, is_executing: false }
}

/// What a call observed at time `t` does. A call runs only when no run is in
/// flight and a full interval has passed: at once when no suppressed call is
/// pending, and as the delayed replay of the most recent suppressed call when
/// one is. Every other call is dropped — a call inside the cooldown leaves
/// only the dirty mark behind, and a call over an in-flight run leaves
/// nothing; the replay belongs to a later call, so the pending intent is lost
/// if no further call ever arrives.
pub open spec fn spec_decide(v: ThrottleView, t: int) -> CallAction {
    if spec_should_execute(v, t) {
        if v.dirty {
            CallAction::RunAfterDelay(spec_delay_for(v, t) as i32)
        } else {
            CallAction::RunNow
        }
    } else {
        CallAction::Skip
    }
}

/// The three outcomes a call can be given: run the operation at once, wait
/// the given number of milliseconds and then run it, or drop the call.
#[derive(Clone, Copy, Debug, PartialEq, Eq, Structural)]
pub enum CallAction {
    RunNow,
    RunAfterDelay(i32),
    Skip,
}

/// One rate-limited operation's bookkeeping. A caller needs exclusive access
/// to take a decision or to record a completed run, so two runs driven
/// through the same throttle cannot overlap unless the caller marks a run as
/// finished while it is still in flight; the racy variant, where independent
/// callers read and write the flags without exclusion, is deliberately not
/// offered.
pub struct Throttle {
    last_exec: i32,
    dirty: bool,
    /// interval in ms
    interval: i32,
    is_executing: bool,
}

impl View for Throttle {
    type V = ThrottleView;

    closed spec fn view(&self) -> ThrottleView {
        ThrottleView {
            interval: self.interval as int,
            last_exec: self.last_exec as int,
            dirty: self.dirty,
            is_executing: self.is_executing,
        }
    }
}

/// A well-formed throttle state: a positive interval and a last-run time
/// that never moved below the epoch; both fit the machine word they are
/// stored in.
pub open spec fn view_wf(v: ThrottleView) -> bool {
    &&& 0 < v.interval <= i32::MAX
    &&& 0 <= v.last_exec <= i32::MAX
}

/// Relates one decision query to the clock reading it acted on: the reading
/// was no earlier than the recorded last run, and result and state follow
/// the decision rule at that reading.
pub open spec fn should_execute_step(pre: ThrottleView, post: ThrottleView, r: bool, t: int) -> bool {
    &&& pre.last_exec <= t <= i32::MAX
    &&& r == spec_should_execute(pre, t)
    &&& post == spec_after_should_execute(pre, t)
}

/// Relates one remaining-time query to the clock reading it acted on.
pub open spec fn remaining_step(v: ThrottleView, r: Option<i32>, t: int) -> bool {
    &&& v.last_exec <= t <= i32::MAX
    &&& r == Some(spec_remaining(v, t) as i32)
}

/// Relates one completion record to the clock reading it acted on.
pub open spec fn executed_step(pre: ThrottleView, post: ThrottleView, t: int) -> bool {
    &&& pre.last_exec <= t <= i32::MAX
    &&& post == spec_after_executed(pre, t)
}

/// Relates one full call decision to the clock reading it acted on.
pub open spec fn decide_step(pre: ThrottleView, post: ThrottleView, r: CallAction, t: int) -> bool {
    &&& pre.last_exec <= t <= i32::MAX
    &&& r == spec_decide(pre, t)
    &&& post == spec_after_should_execute(pre, t)
}

impl Throttle {
    /// A well-formed throttle; every constructor establishes this and every
    /// method keeps it.
    pub open spec fn wf(&self) -> bool {
        view_wf(self@)
    }

    /// Builds a throttle for the given interval in milliseconds. A zero or
    /// negative interval would leave the remaining-time computation without
    /// meaning, so it is rejected here rather than carried into the methods.
    pub fn from_interval(interval: i32) -> (r: Option<Throttle>)
        ensures
            r is Some <==> interval > 0,
            interval > 0 ==> (r matches Some(th) && th@ == spec_initial(interval as int)
                && th.wf()),
    {
        if interval > 0 {
            Some(Throttle { last_exec: 0, dirty: false, interval, is_executing: false })
        } else {
            None
        }
    }

    /// Marks whether a run is in flight; the driver sets this right before
    /// it invokes the operation.
    pub fn set_executing(&mut self, is_executing: bool)
        ensures
            final(self)@ == (ThrottleView { is_executing: is_executing, ..old(self)@ }),
    {
        self.is_executing = is_executing;
    }

    fn set_dirty(&mut self, is_dirty: bool)
        ensures
            final(self)@ == (ThrottleView { dirty: is_dirty, ..old(self)@ }),
    {
        self.dirty = is_dirty;
    }

    /// Whether a suppressed call is waiting to be replayed.
    pub fn is_dirty(&self) -> (r: bool)
        ensures
            r == self@.dirty,
    {
        self.dirty
    }

    /// Whether a run is in flight.
    pub fn is_executing(&self) -> (r: bool)
        ensures
            r == self@.is_executing,
    {
        self.is_executing
    }

    /// The recorded completion time of the most recent run, in milliseconds.
    pub fn last_exec(&self) -> (r: i32)
        ensures
            r as int == self@.last_exec,
    {
        self.last_exec
    }

    /// The decision query against an explicit clock reading `t`: eligible to
    /// run exactly when idle and a full interval has elapsed; a call during
    /// the cooldown is recorded in the dirty mark.
    pub fn should_execute_at(&mut self, t: i32) -> (r: bool)
        requires
            old(self).wf(),
            old(self)@.last_exec <= t as int,
        ensures
            final(self).wf(),
            r == spec_should_execute(old(self)@, t as int),
            final(self)@ == spec_after_should_execute(old(self)@, t as int),
    {
        if self.is_executing {
            false
        } else {
            let elapsed: i32 = t - self.last_exec;
            if elapsed >= self.interval {
                true
            } else {
                self.set_dirty(true);
                false
            }
        }
    }

    /// How many milliseconds of the current interval window are left at the
    /// clock reading `t`; always between one and the full interval. The
    /// absent value would signal a state this library's constructors and
    /// methods never produce, and callers must treat it as a defect, not an
    /// outcome.
    pub fn remaining_time_at(&self, t: i32) -> (r: Option<i32>)
        requires
            self.wf(),
            self@.last_exec <= t as int,
        ensures
            (r matches Some(rem) && rem as int == spec_remaining(self@, t as int)),
            1 <= spec_remaining(self@, t as int) <= self@.interval,
    {
        let since: i32 = t - self.last_exec;
        let rem: i32 = self.interval - (since % self.interval);
        proof {
            vstd::arithmetic::div_mod::lemma_mod_bound((t - self.last_exec) as int,
                self.interval as int);
        }
        if rem >= 0 {
            Some(rem)
        } else {
            None
        }
    }

    /// Records a run completed at the clock reading `t`: the completion time
    /// becomes the new reference point, and the dirty and in-flight marks
    /// are cleared whatever they were before.
    pub fn executed_at(&mut self, t: i32)
        requires
            old(self).wf(),
            old(self)@.last_exec <= t as int,
        ensures
            final(self).wf(),
            final(self)@ == spec_after_executed(old(self)@, t as int),
            !final(self)@.dirty,
            !final(self)@.is_executing,
            final(self)@.interval == old(self)@.interval,
    {
        self.last_exec = t;
        self.set_dirty(false);
        self.set_executing(false);
    }

    /// The full decision for one call observed at the clock reading `t`: a
    /// call runs only once the interval has elapsed — at once, or as the
    /// delayed replay of an earlier suppressed call; a call inside the
    /// cooldown is dropped having only set the dirty mark, and a call over an
    /// in-flight run is dropped outright. The driver is expected to act on
    /// the result: on `RunNow`, mark the run in flight, invoke the operation
    /// and record its completion; on `RunAfterDelay(d)`, wait `d`
    /// milliseconds first and then do the same; on `Skip`, drop the call.
    pub fn decide_at(&mut self, t: i32) -> (r: CallAction)
        requires
            old(self).wf(),
            old(self)@.last_exec <= t as int,
        ensures
            final(self).wf(),
            r == spec_decide(old(self)@, t as int),
            final(self)@ == spec_after_should_execute(old(self)@, t as int),
    {
        let was_dirty: bool = self.is_dirty();
        if self.should_execute_at(t) {
            if was_dirty {
                let rem: i32 = self.remaining_time_at(t).unwrap();
                let wait: i32 = if rem < i32::MAX {
                    rem + 1
                } else {
                    rem
                };
                CallAction::RunAfterDelay(wait)
            } else {
                CallAction::RunNow
            }
        } else {
            CallAction::Skip
        }
    }

    /// A clock reading that never moves below the recorded last run. The
    /// platform promises a non-decreasing clock; a reading below the last
    /// recorded run would mean the clock ran backwards, and is read as equal
    /// to that recorded time instead of poisoning the state.
    fn monotonic_now(&self) -> (t: i32)
        ensures
            self@.last_exec <= t as int,
    {
        let raw: i32 = crate::now();
        if raw >= self.last_exec {
            raw
        } else {
            self.last_exec
        }
    }

    /// The decision query against the platform clock. The clock reading is
    /// not under the library's control, so the contract says what holds of
    /// every outcome: result and state follow the decision rule at some
    /// reading no earlier than the recorded last run.
    pub fn should_execute(&mut self) -> (r: bool)
        requires
            old(self).wf(),
        ensures
            final(self).wf(),
            exists|t: int| should_execute_step(old(self)@, final(self)@, r, t),
    {
        let t: i32 = self.monotonic_now();
        let r: bool = self.should_execute_at(t);
        proof {
            assert(should_execute_step(old(self)@, self@, r, t as int));
        }
        r
    }

    /// The remaining wait against the platform clock: present for some
    /// reading no earlier than the recorded last run, and always between one
    /// millisecond and the full interval.
    pub fn remaining_time(&self) -> (r: Option<i32>)
        requires
            self.wf(),
        ensures
            exists|t: int| remaining_step(self@, r, t),
            (r matches Some(rem) && 1 <= rem <= self@.interval),
    {
        let t: i32 = self.monotonic_now();
        let r: Option<i32> = self.remaining_time_at(t);
        proof {
            assert(remaining_step(self@, r, t as int));
        }
        r
    }

    /// Records a completed run against the platform clock: the dirty and
    /// in-flight marks are cleared whatever they were before, and the
    /// recorded last run never moves backwards.
    pub fn executed(&mut self)
        requires
            old(self).wf(),
        ensures
            final(self).wf(),
            !final(self)@.dirty,
            !final(self)@.is_executing,
            final(self)@.interval == old(self)@.interval,
            final(self)@.last_exec >= old(self)@.last_exec,
            exists|t: int| executed_step(old(self)@, final(self)@, t),
    {
        let t: i32 = self.monotonic_now();
        self.executed_at(t);
        proof {
            assert(executed_step(old(self)@, self@, t as int));
        }
    }

    /// The full decision for one call against the platform clock: result and
    /// state follow the decision rule at some reading no earlier than the
    /// recorded last run.
    pub fn decide(&mut self) -> (r: CallAction)
        requires
            old(self).wf(),
        ensures
            final(self).wf(),
            exists|t: int| decide_step(old(self)@, final(self)@, r, t),
    {
        let t: i32 = self.monotonic_now();
        let r: CallAction = self.decide_at(t);
        proof {
            assert(decide_step(old(self)@, self@, r, t as int));
        }
        r
    }
}

} // verus!
