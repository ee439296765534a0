use async_delay::{now, CallAction, Throttle};

#[test]
fn it_works() {
    let time1 = now();
    let time2 = now();
    assert_eq!(time1, time2);
}

#[test]
fn rejects_nonpositive_interval() {
    assert!(Throttle::from_interval(0).is_none());
    assert!(Throttle::from_interval(-5).is_none());
    assert!(Throttle::from_interval(1).is_some());
}

#[test]
fn first_call_executes() {
    // last run starts at the epoch, so a reading of one interval is enough
    let mut th = Throttle::from_interval(100).unwrap();
    assert!(th.should_execute_at(100));
    assert!(!th.is_dirty());

    // with a realistic clock reading the first call runs at once
    let mut th2 = Throttle::from_interval(100).unwrap();
    assert_eq!(th2.decide_at(1_000_000), CallAction::RunNow);
}

#[test]
fn scenario_leading_then_replay() {
    let mut th = Throttle::from_interval(100).unwrap();

    // first call: runs at once, completion recorded at 1000
    assert_eq!(th.decide_at(1000), CallAction::RunNow);
    th.set_executing(true);
    th.executed_at(1000);
    assert_eq!(th.last_exec(), 1000);

    // a call 30ms later lands in the cooldown: it is dropped, leaving only
    // the pending replay mark
    assert_eq!(th.decide_at(1030), CallAction::Skip);
    assert!(th.is_dirty());
    assert_eq!(th.last_exec(), 1000);

    // the first call once the cooldown has passed finds the mark and
    // performs the delayed replay: the remaining 50ms of the open window
    // plus the one-millisecond pad
    assert_eq!(th.decide_at(1150), CallAction::RunAfterDelay(51));
    assert!(th.is_dirty());
    th.set_executing(true);
    th.executed_at(1201);
    assert!(!th.is_dirty());
    assert_eq!(th.last_exec(), 1201);
}

#[test]
fn executed_resets_flags() {
    let mut th = Throttle::from_interval(100).unwrap();
    th.executed_at(500);
    assert!(!th.is_dirty());
    assert!(!th.is_executing());

    // set both marks, then record a completion: both are cleared
    assert!(!th.should_execute_at(530));
    th.set_executing(true);
    assert!(th.is_dirty());
    assert!(th.is_executing());
    th.executed_at(600);
    assert!(!th.is_dirty());
    assert!(!th.is_executing());
    assert_eq!(th.last_exec(), 600);
}

#[test]
fn executed_with_clock_resets_flags() {
    let mut th = Throttle::from_interval(10).unwrap();
    th.set_executing(true);
    th.executed();
    assert!(!th.is_dirty());
    assert!(!th.is_executing());
}

#[test]
fn remaining_time_in_range() {
    let mut th = Throttle::from_interval(100).unwrap();
    th.executed_at(1000);

    // right after the decision query marks the throttle dirty
    assert!(!th.should_execute_at(1030));
    assert!(th.is_dirty());
    assert_eq!(th.remaining_time_at(1030), Some(70));

    // at the start of a window the full interval remains
    assert_eq!(th.remaining_time_at(1000), Some(100));
    // one step before the window ends, one millisecond remains
    assert_eq!(th.remaining_time_at(1099), Some(1));
    // at the boundary the next window begins
    assert_eq!(th.remaining_time_at(1100), Some(100));
}

#[test]
fn remaining_time_with_clock_in_range() {
    let th = Throttle::from_interval(1_000_000_000).unwrap();
    let rem = th.remaining_time().unwrap();
    assert!(1 <= rem && rem <= 1_000_000_000);
}

#[test]
fn overlap_is_dropped() {
    let mut th = Throttle::from_interval(100).unwrap();
    assert_eq!(th.decide_at(1000), CallAction::RunNow);
    th.set_executing(true);

    // a call made while the run is in flight is dropped and changes nothing
    assert_eq!(th.decide_at(1000), CallAction::Skip);
    assert!(!th.is_dirty());
    assert!(th.is_executing());
    assert_eq!(th.last_exec(), 0);
}

#[test]
fn overlap_with_pending_replay_is_dropped() {
    let mut th = Throttle::from_interval(100).unwrap();
    th.executed_at(1000);
    assert_eq!(th.decide_at(1030), CallAction::Skip);
    assert!(th.is_dirty());
    th.set_executing(true);

    // even with a replay pending, a call over an in-flight run is dropped
    // and changes nothing
    assert_eq!(th.decide_at(1200), CallAction::Skip);
    assert!(th.is_dirty());
    assert!(th.is_executing());
    assert_eq!(th.last_exec(), 1000);
}

#[test]
fn rapid_calls_one_immediate() {
    let mut th = Throttle::from_interval(10).unwrap();

    // a tight burst of 100 calls: the first runs at once, the other 99 land
    // in its cooldown and are dropped with the replay mark set
    assert_eq!(th.decide_at(1000), CallAction::RunNow);
    th.set_executing(true);
    th.executed_at(1000);
    let mut skipped: usize = 0;
    let mut i: usize = 0;
    while i < 99 {
        if th.decide_at(1000) == CallAction::Skip {
            skipped += 1;
        }
        i += 1;
    }
    assert_eq!(skipped, 99);
    assert!(th.is_dirty());

    // one later call, about an interval after the burst, performs the one
    // trailing replay: two runs in all, far fewer than the 100 calls
    assert_eq!(th.decide_at(1010), CallAction::RunAfterDelay(11));
    th.set_executing(true);
    th.executed_at(1021);
    assert!(!th.is_dirty());
}

#[test]
fn sequential_calls_never_overlap() {
    let mut th = Throttle::from_interval(50).unwrap();
    let times: [i32; 4] = [1000, 1020, 1090, 1130];
    let mut runs: usize = 0;
    let mut idx: usize = 0;
    while idx < times.len() {
        // each call completes in full before the next, so no run is in flight
        assert!(!th.is_executing());
        match th.decide_at(times[idx]) {
            CallAction::RunNow => {
                th.set_executing(true);
                runs += 1;
                th.executed_at(times[idx]);
            }
            CallAction::RunAfterDelay(wait) => {
                assert!(wait >= 1);
                th.set_executing(true);
                runs += 1;
                th.executed_at(times[idx] + wait);
            }
            CallAction::Skip => {}
        }
        idx += 1;
    }
    // the first call ran at once; the calls inside a cooldown were dropped;
    // the one call past a cooldown's end performed the delayed replay
    assert_eq!(runs, 2);
}

#[test]
fn call_driver_returns_value() {
    let mut th = Throttle::from_interval(100).unwrap();
    let op = || 42;
    let ret = match th.decide_at(1000) {
        CallAction::RunNow => {
            th.set_executing(true);
            let v: i32 = op();
            th.executed_at(1000);
            Some(v)
        }
        CallAction::RunAfterDelay(_) => None,
        CallAction::Skip => None,
    };
    assert_eq!(ret, Some(42));
}

#[test]
fn clock_driven_decision_consistent() {
    let mut th = Throttle::from_interval(1).unwrap();
    let eligible = th.should_execute();
    // whatever the clock read: an ineligible idle call leaves a replay mark
    if !eligible {
        assert!(th.is_dirty());
    }
}
