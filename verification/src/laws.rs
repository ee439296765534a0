//! The general guarantees of the throttle, stated over the abstract state
//! and proved once for every interval, clock reading and call sequence.

use crate::throttle::{
    spec_after_executed, spec_after_should_execute, spec_decide, spec_delay_for, spec_initial,
    spec_remaining, spec_should_execute, CallAction, ThrottleView,
};
use vstd::arithmetic::div_mod::lemma_mod_bound;
use vstd::prelude::*;

verus! {

/// For every positive interval, the first call after construction is
/// executed at once: a fresh throttle records its last run at the epoch, so
/// the elapsed time is the clock reading itself, which on a clock counting
/// from the epoch is at least one interval.
pub proof fn lemma_first_call_executes(interval: int, t: int)
    requires
        0 < interval,
        interval <= t,
    ensures
        spec_should_execute(spec_initial(interval), t),
        spec_decide(spec_initial(interval), t) == CallAction::RunNow,
{
}

/// The remaining wait is always between one millisecond and the full
/// interval, for every state with a positive interval and every clock
/// reading no earlier than the recorded last run; in particular right after
/// a decision query has marked the throttle dirty.
pub proof fn lemma_remaining_in_range(v: ThrottleView, t: int)
    requires
        0 < v.interval,
        v.last_exec <= t,
    ensures
        1 <= spec_remaining(v, t) <= v.interval,
{
    lemma_mod_bound(t - v.last_exec, v.interval);
}

/// A call that arrives while a run is in flight is dropped, whatever the
/// rest of the state holds, and the state is left exactly as it was.
pub proof fn lemma_overlap_is_dropped(v: ThrottleView, t: int)
    requires
        v.is_executing,
    ensures
        spec_decide(v, t) == CallAction::Skip,
        spec_after_should_execute(v, t) == v,
{
}

/// A call that lands inside the cooldown is suppressed: it is dropped having
/// done nothing but set the dirty mark, so the only record it leaves is the
/// pending replay.
pub proof fn lemma_cooldown_call_suppressed(v: ThrottleView, t: int)
    requires
        !v.is_executing,
        t - v.last_exec < v.interval,
    ensures
        spec_decide(v, t) == CallAction::Skip,
        spec_after_should_execute(v, t) == (ThrottleView { dirty: true, ..v }),
{
}

/// An immediate run is only ever issued while no run is in flight and no
/// replay is pending: driven sequentially, two operations can never be
/// started on top of each other through the decision rule.
pub proof fn lemma_run_now_requires_idle(v: ThrottleView, t: int)
    requires
        spec_decide(v, t) == CallAction::RunNow,
    ensures
        !v.is_executing,
        !v.dirty,
{
}

/// The first call made once the cooldown has passed, finding a suppressed
/// call pending, performs the delayed replay: it is told to wait out the
/// remainder of the current interval window plus the one-millisecond pad,
/// so the run lands strictly after the call and within one interval and a
/// millisecond of it. The decision itself changes nothing; the state is
/// reset only when the replayed run completes.
pub proof fn lemma_trailing_replay_after_cooldown(v: ThrottleView, t: int)
    requires
        0 < v.interval,
        !v.is_executing,
        v.dirty,
        v.last_exec + v.interval <= t,
    ensures
        spec_decide(v, t) is RunAfterDelay,
        spec_after_should_execute(v, t) == v,
        t + 2 <= spec_exec_time(v, t) <= t + v.interval + 1,
{
    lemma_remaining_in_range(v, t);
}

/// When the driver acts on a decision taken at time `t` and the operation
/// itself takes no time, an immediate run happens at `t` and a replay at the
/// end of its internal delay.
pub open spec fn spec_exec_time(v: ThrottleView, t: int) -> int {
    if spec_decide(v, t) is RunAfterDelay {
        t + spec_delay_for(v, t)
    } else {
        t
    }
}

/// The state after one full call by a sequential caller whose operation
/// takes no time: a dropped call leaves only the decision's mark, and an
/// executed call records its run time.
pub open spec fn spec_after_call(v: ThrottleView, t: int) -> ThrottleView {
    if spec_decide(v, t) is Skip {
        spec_after_should_execute(v, t)
    } else {
        spec_after_executed(v, spec_exec_time(v, t))
    }
}

/// The state after a whole sequence of full calls.
pub open spec fn sim_calls(v: ThrottleView, ts: Seq<int>) -> ThrottleView
    decreases ts.len(),
{
    if ts.len() == 0 {
        v
    } else {
        sim_calls(spec_after_call(v, ts[0]), ts.subrange(1, ts.len() as int))
    }
}

/// A sequence of call times a sequential caller can issue, each call spaced
/// strictly less than one interval after the one before it: every call is
/// issued no earlier than the state's recorded last run (the caller awaits
/// each call in full, and the clock does not run backwards).
pub open spec fn calls_admissible(v: ThrottleView, ts: Seq<int>) -> bool
    decreases ts.len(),
{
    ts.len() == 0 || {
        &&& v.last_exec <= ts[0]
        &&& (ts.len() == 1 || ts[1] < ts[0] + v.interval)
        &&& calls_admissible(spec_after_call(v, ts[0]), ts.subrange(1, ts.len() as int))
    }
}

/// How many calls of the sequence are executed immediately, without an
/// internal delay.
pub open spec fn immediate_count(v: ThrottleView, ts: Seq<int>) -> int
    decreases ts.len(),
{
    if ts.len() == 0 {
        0
    } else {
        (if spec_decide(v, ts[0]) == CallAction::RunNow {
            1int
        } else {
            0int
        }) + immediate_count(spec_after_call(v, ts[0]), ts.subrange(1, ts.len() as int))
    }
}

/// How many calls of the sequence run the operation at all, immediately or
/// as a delayed replay.
pub open spec fn executed_count(v: ThrottleView, ts: Seq<int>) -> int
    decreases ts.len(),
{
    if ts.len() == 0 {
        0
    } else {
        (if spec_decide(v, ts[0]) is Skip {
            0int
        } else {
            1int
        }) + executed_count(spec_after_call(v, ts[0]), ts.subrange(1, ts.len() as int))
    }
}

/// Calls that all land inside the current cooldown are all suppressed: none
/// runs, the recorded last run does not move, and all that the sequence
/// leaves behind is the dirty mark.
proof fn lemma_all_cooldown_skipped(v: ThrottleView, ts: Seq<int>)
    requires
        !v.is_executing,
        forall|i: int| 0 <= i < ts.len() ==> #[trigger] ts[i] - v.last_exec < v.interval,
    ensures
        immediate_count(v, ts) == 0,
        executed_count(v, ts) == 0,
        sim_calls(v, ts).interval == v.interval,
        sim_calls(v, ts).last_exec == v.last_exec,
        !sim_calls(v, ts).is_executing,
        sim_calls(v, ts).dirty == (v.dirty || ts.len() > 0),
    decreases ts.len(),
{
    if ts.len() > 0 {
        let t = ts[0];
        let tail = ts.subrange(1, ts.len() as int);
        lemma_cooldown_call_suppressed(v, t);
        let v1 = spec_after_call(v, t);
        assert(v1 == (ThrottleView { dirty: true, ..v }));
        assert forall|i: int| 0 <= i < tail.len() implies #[trigger] tail[i] - v1.last_exec
            < v1.interval by {
            assert(tail[i] == ts[i + 1]);
        }
        lemma_all_cooldown_skipped(v1, tail);
    }
}

/// An admissible sequence that starts either inside the cooldown or with a
/// replay already pending never reaches an immediate run: a suppressed call
/// only deepens the pending mark, and a replayed run completes after the
/// call that triggered it, so the next spaced call again lands inside a
/// cooldown.
pub proof fn lemma_no_immediate_from_cooldown(v: ThrottleView, ts: Seq<int>)
    requires
        0 < v.interval,
        !v.is_executing,
        calls_admissible(v, ts),
        ts.len() > 0 ==> v.dirty || ts[0] < v.last_exec + v.interval,
    ensures
        immediate_count(v, ts) == 0,
    decreases ts.len(),
{
    if ts.len() > 0 {
        let t = ts[0];
        let tail = ts.subrange(1, ts.len() as int);
        assert(spec_decide(v, t) != CallAction::RunNow);
        let v1 = spec_after_call(v, t);
        if spec_decide(v, t) is Skip {
            assert(t - v.last_exec < v.interval);
            assert(v1 == (ThrottleView { dirty: true, ..v }));
        } else {
            lemma_remaining_in_range(v, t);
            let e = spec_exec_time(v, t);
            assert(t + 2 <= e <= t + v.interval + 1);
            assert(v1 == spec_after_executed(v, e));
            if tail.len() > 0 {
                assert(tail[0] == ts[1]);
                assert(tail[0] < v1.last_exec + v1.interval);
            }
        }
        lemma_no_immediate_from_cooldown(v1, tail);
    }
}

/// Among sequential calls spaced strictly less than one interval apart, at
/// most one is executed immediately, and when the first call of the sequence
/// runs at once it is exactly that one: every further call either lands
/// inside a cooldown and is suppressed, or performs a delayed replay.
pub proof fn lemma_at_most_one_immediate(v: ThrottleView, ts: Seq<int>)
    requires
        0 < v.interval,
        !v.is_executing,
        calls_admissible(v, ts),
    ensures
        immediate_count(v, ts) <= 1,
        ts.len() > 0 && spec_decide(v, ts[0]) == CallAction::RunNow ==> immediate_count(v, ts)
            == 1,
{
    if ts.len() > 0 {
        let t = ts[0];
        let tail = ts.subrange(1, ts.len() as int);
        if spec_decide(v, t) == CallAction::RunNow {
            let v1 = spec_after_call(v, t);
            assert(v1 == spec_after_executed(v, t));
            if tail.len() > 0 {
                assert(tail[0] == ts[1]);
                assert(tail[0] < v1.last_exec + v1.interval);
            }
            lemma_no_immediate_from_cooldown(v1, tail);
        } else {
            lemma_no_immediate_from_cooldown(v, ts);
        }
    }
}

/// One interval window in full: the first call is eligible and runs at once;
/// every further call of the burst lands inside that run's cooldown and
/// returns without running, leaving only the pending mark; the first call
/// made at or after the cooldown's end then finds the mark and performs the
/// delayed replay.
pub proof fn lemma_burst_leading_then_trailing(v: ThrottleView, ts: Seq<int>, u: int)
    requires
        0 < v.interval,
        !v.is_executing,
        !v.dirty,
        ts.len() >= 1,
        v.last_exec + v.interval <= ts[0],
        forall|i: int| 1 <= i < ts.len() ==> ts[0] <= #[trigger] ts[i] && ts[i] - ts[0]
            < v.interval,
        ts[0] + v.interval <= u,
    ensures
        spec_decide(v, ts[0]) == CallAction::RunNow,
        immediate_count(v, ts) == 1,
        executed_count(v, ts) == 1,
        sim_calls(v, ts).last_exec == ts[0],
        ts.len() > 1 ==> sim_calls(v, ts).dirty,
        ts.len() > 1 ==> spec_decide(sim_calls(v, ts), u) is RunAfterDelay,
{
    let t = ts[0];
    let tail = ts.subrange(1, ts.len() as int);
    assert(spec_decide(v, t) == CallAction::RunNow);
    let v1 = spec_after_call(v, t);
    assert(v1 == spec_after_executed(v, t));
    assert forall|i: int| 0 <= i < tail.len() implies #[trigger] tail[i] - v1.last_exec
        < v1.interval by {
        assert(tail[i] == ts[i + 1]);
    }
    lemma_all_cooldown_skipped(v1, tail);
}

} // verus!
