use dockcron::discovery::Job;
use dockcron::gate::{OverlapGate, OverlapPolicy, Tick};
use dockcron::interval::Interval;
use dockcron::schedule::JobSchedule;
use dockcron::scheduler::{
    delay_until, following_interval_due, plan_cron, plan_every, run_loop, start_loop, LoopAction,
    LoopError, LoopEvent, LoopState, Next,
};
use dockcron::timestamp::Timestamp;

const SEC: i128 = 1_000_000_000;

fn job(schedule: &str, overlap: OverlapPolicy) -> Job {
    Job {
        container_id: "c".to_string(),
        container_name: "/c".to_string(),
        name: "j".to_string(),
        schedule: JobSchedule::from_str(schedule).unwrap(),
        command: "true".to_string(),
        overlap,
        gate: OverlapGate::new(),
    }
}

fn at(secs: i64) -> Timestamp {
    Timestamp::new(secs, 0).unwrap()
}

fn secs(n: u64) -> Interval {
    Interval { secs: n, nanos: 0 }
}

fn wake(secs: i64) -> LoopEvent {
    LoopEvent::Wake { now: at(secs) }
}

#[test]
fn first_fire_comes_one_hour_after_the_start() {
    let mut j = job("@every 1h", OverlapPolicy::Allow);
    let (state, action) = start_loop(&j, at(1000));
    assert_eq!(state, LoopState::Waiting { due: 4600 * SEC });
    assert_eq!(action, LoopAction { tick: None, next: Next::Sleep(secs(3600)) });
    let (state, action) = run_loop(&mut j, state, wake(4599));
    assert_eq!(state, LoopState::Waiting { due: 4600 * SEC });
    assert_eq!(action, LoopAction { tick: None, next: Next::Sleep(secs(1)) });
    let (state, action) = run_loop(&mut j, state, wake(4600));
    assert_eq!(state, LoopState::Waiting { due: 8200 * SEC });
    assert_eq!(action, LoopAction { tick: Some(Tick::Execute), next: Next::Sleep(secs(3600)) });
}

#[test]
fn late_wakes_keep_the_timer_on_its_beat() {
    let mut j = job("@every 10s", OverlapPolicy::Allow);
    let (state, _) = start_loop(&j, at(0));
    let (state, action) = run_loop(&mut j, state, wake(13));
    assert_eq!(state, LoopState::Waiting { due: 20 * SEC });
    assert_eq!(action, LoopAction { tick: Some(Tick::Execute), next: Next::Sleep(secs(7)) });
    let (state, action) = run_loop(&mut j, state, wake(20));
    assert_eq!(state, LoopState::Waiting { due: 30 * SEC });
    assert_eq!(action.next, Next::Sleep(secs(10)));
}

#[test]
fn missed_ticks_are_made_up_for_by_one_tick() {
    let mut j = job("@every 10s", OverlapPolicy::Allow);
    let (state, _) = start_loop(&j, at(0));
    let (state, action) = run_loop(&mut j, state, wake(47));
    assert_eq!(state, LoopState::Waiting { due: 40 * SEC });
    assert_eq!(action, LoopAction { tick: Some(Tick::Execute), next: Next::Sleep(secs(0)) });
    let (state, action) = run_loop(&mut j, state, wake(47));
    assert_eq!(state, LoopState::Waiting { due: 50 * SEC });
    assert_eq!(action, LoopAction { tick: Some(Tick::Execute), next: Next::Sleep(secs(3)) });
    let (state, action) = run_loop(&mut j, state, wake(47));
    assert_eq!(state, LoopState::Waiting { due: 50 * SEC });
    assert_eq!(action, LoopAction { tick: None, next: Next::Sleep(secs(3)) });
}

#[test]
fn skip_policy_skips_while_an_execution_is_in_flight() {
    let mut j = job("@every 10s", OverlapPolicy::Skip);
    let (state, _) = start_loop(&j, at(0));
    let (state, action) = run_loop(&mut j, state, wake(10));
    assert_eq!(action.tick, Some(Tick::Execute));
    assert!(j.gate.held);
    let (state, action) = run_loop(&mut j, state, wake(20));
    assert_eq!(action.tick, Some(Tick::Skip));
    assert_eq!(action.next, Next::Sleep(secs(10)));
    assert!(j.gate.held);
    let (state, action) = run_loop(&mut j, state, LoopEvent::Finished);
    assert_eq!(action, LoopAction { tick: None, next: Next::Resume });
    assert_eq!(state, LoopState::Waiting { due: 30 * SEC });
    assert!(!j.gate.held);
    let (_, action) = run_loop(&mut j, state, wake(30));
    assert_eq!(action.tick, Some(Tick::Execute));
}

#[test]
fn allow_policy_starts_executions_that_overlap() {
    let mut j = job("@every 10s", OverlapPolicy::Allow);
    let (state, _) = start_loop(&j, at(0));
    let (state, first) = run_loop(&mut j, state, wake(10));
    let (state, second) = run_loop(&mut j, state, wake(20));
    assert_eq!(first.tick, Some(Tick::Execute));
    assert_eq!(second.tick, Some(Tick::Execute));
    assert!(!j.gate.held);
    let (_, after) = run_loop(&mut j, state, LoopEvent::Finished);
    assert_eq!(after.next, Next::Resume);
    assert!(!j.gate.held);
}

#[test]
fn gate_decides_ticks_by_policy() {
    let mut gate = OverlapGate::new();
    assert!(gate.try_acquire());
    assert!(!gate.try_acquire());
    assert_eq!(gate.on_tick(OverlapPolicy::Skip), Tick::Skip);
    assert_eq!(gate.on_tick(OverlapPolicy::Allow), Tick::Execute);
    assert!(gate.held);
    gate.on_finished(OverlapPolicy::Allow);
    assert!(gate.held);
    gate.on_finished(OverlapPolicy::Skip);
    assert!(!gate.held);
    assert_eq!(gate.on_tick(OverlapPolicy::Skip), Tick::Execute);
    gate.release();
    assert!(!gate.held);
}

#[test]
fn cancellation_stops_the_loop_for_good() {
    let mut j = job("@every 10s", OverlapPolicy::Skip);
    let (state, _) = start_loop(&j, at(0));
    let (state, _) = run_loop(&mut j, state, wake(10));
    let (state, action) = run_loop(&mut j, state, LoopEvent::Cancel);
    assert_eq!(state, LoopState::Stopped);
    assert_eq!(action, LoopAction { tick: None, next: Next::Stop(None) });
    assert!(j.gate.held);
    let (state, action) = run_loop(&mut j, state, wake(20));
    assert_eq!(state, LoopState::Stopped);
    assert_eq!(action, LoopAction { tick: None, next: Next::Stop(None) });
    let (state, action) = run_loop(&mut j, state, LoopEvent::Finished);
    assert_eq!(state, LoopState::Stopped);
    assert_eq!(action.next, Next::Resume);
    assert!(!j.gate.held);
}

#[test]
fn cron_jobs_sleep_until_the_next_match() {
    let mut j = job("@cron 0 0 * * *", OverlapPolicy::Allow);
    let start = Timestamp::new(1_700_000_000, 250_000_000).unwrap();
    let (state, action) = start_loop(&j, start);
    assert_eq!(state, LoopState::Waiting { due: 1_700_006_400 * SEC });
    assert_eq!(
        action,
        LoopAction { tick: None, next: Next::Sleep(Interval { secs: 6399, nanos: 750_000_000 }) }
    );
    let (state, action) = run_loop(&mut j, state, wake(1_700_006_400));
    assert_eq!(state, LoopState::Waiting { due: (1_700_006_400 + 86_400) * SEC });
    assert_eq!(action, LoopAction { tick: Some(Tick::Execute), next: Next::Sleep(secs(86_400)) });
}

#[test]
fn cron_job_without_a_future_match_stops_with_an_error() {
    let mut j = job("@cron 0 0 0 1 1 * 2024", OverlapPolicy::Allow);
    let (state, action) = start_loop(&j, at(1_700_000_000));
    assert_eq!(state, LoopState::Waiting { due: 1_704_067_200 * SEC });
    assert_eq!(action.next, Next::Sleep(secs(4_067_200)));
    let (state, action) = run_loop(&mut j, state, wake(1_704_067_200));
    assert_eq!(state, LoopState::Stopped);
    assert_eq!(
        action,
        LoopAction {
            tick: Some(Tick::Execute),
            next: Next::Stop(Some(LoopError::NoUpcomingOccurrence))
        }
    );
    let (state, action) = start_loop(&j, at(1_704_067_200));
    assert_eq!(state, LoopState::Stopped);
    assert_eq!(action, LoopAction { tick: None, next: Next::Stop(Some(LoopError::NoUpcomingOccurrence)) });
}

#[test]
fn zero_interval_stops_with_an_error() {
    let j = job("@every 0s", OverlapPolicy::Allow);
    let (state, action) = start_loop(&j, at(0));
    assert_eq!(state, LoopState::Stopped);
    assert_eq!(action, LoopAction { tick: None, next: Next::Stop(Some(LoopError::ZeroInterval)) });
}

#[test]
fn delay_is_clamped_at_both_ends() {
    assert_eq!(delay_until(5 * SEC, at(7)), secs(0));
    assert_eq!(delay_until(7 * SEC, at(7)), secs(0));
    assert_eq!(delay_until(7 * SEC + 1, at(7)), Interval { secs: 0, nanos: 1 });
    assert_eq!(
        delay_until(10 * SEC, Timestamp::new(7, 999_999_999).unwrap()),
        Interval { secs: 2, nanos: 1 }
    );
    let max = 18_446_744_073_709_551_615_999_999_999i128;
    assert_eq!(delay_until(max, at(0)), Interval { secs: u64::MAX, nanos: 999_999_999 });
    assert_eq!(delay_until(max - 1, at(0)), Interval { secs: u64::MAX, nanos: 999_999_998 });
    assert_eq!(delay_until(max + 5 * SEC, at(1)), Interval { secs: u64::MAX, nanos: 999_999_999 });
}

#[test]
fn longest_interval_is_slept_whole() {
    let j = Job {
        schedule: JobSchedule::Every(Interval { secs: u64::MAX, nanos: 999_999_999 }),
        ..job("@hourly", OverlapPolicy::Allow)
    };
    let (state, action) = start_loop(&j, at(8_000_000_000_000));
    assert_eq!(
        state,
        LoopState::Waiting { due: 18_446_744_073_709_551_615_999_999_999 + 8_000_000_000_000 * SEC }
    );
    assert_eq!(action.next, Next::Sleep(Interval { secs: u64::MAX, nanos: 999_999_999 }));
}

#[test]
fn next_due_time_follows_the_beat_or_catches_up_once() {
    assert_eq!(following_interval_due(100, 10, 100), 110);
    assert_eq!(following_interval_due(100, 10, 109), 110);
    assert_eq!(following_interval_due(100, 10, 110), 110);
    assert_eq!(following_interval_due(100, 10, 119), 110);
    assert_eq!(following_interval_due(100, 10, 120), 120);
    assert_eq!(following_interval_due(100, 10, 157), 150);
    assert_eq!(following_interval_due(150, 10, 157), 160);
    assert_eq!(following_interval_due(-25, 10, 7), 5);
    assert_eq!(following_interval_due(0, 1, 1_000_000), 1_000_000);
}

#[test]
fn plans_say_how_to_go_on() {
    assert_eq!(
        plan_every(secs(10), None, at(5)),
        (LoopState::Waiting { due: 15 * SEC }, Next::Sleep(secs(10)))
    );
    assert_eq!(
        plan_every(secs(10), Some(15 * SEC), at(15)),
        (LoopState::Waiting { due: 25 * SEC }, Next::Sleep(secs(10)))
    );
    assert_eq!(
        plan_every(secs(10), Some(15 * SEC), at(58)),
        (LoopState::Waiting { due: 55 * SEC }, Next::Sleep(secs(0)))
    );
    assert_eq!(
        plan_every(secs(0), Some(15 * SEC), at(58)),
        (LoopState::Stopped, Next::Stop(Some(LoopError::ZeroInterval)))
    );
    assert_eq!(
        plan_cron(Some(100), at(40)),
        (LoopState::Waiting { due: 100 * SEC }, Next::Sleep(secs(60)))
    );
    assert_eq!(
        plan_cron(Some(30), at(40)),
        (LoopState::Waiting { due: 30 * SEC }, Next::Sleep(secs(0)))
    );
    assert_eq!(
        plan_cron(None, at(40)),
        (LoopState::Stopped, Next::Stop(Some(LoopError::NoUpcomingOccurrence)))
    );
    assert_eq!(
        plan_cron(Some(i64::MIN), at(40)),
        (LoopState::Waiting { due: i64::MIN as i128 * SEC }, Next::Sleep(secs(0)))
    );
}
