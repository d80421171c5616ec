//! The timing loop of one job, as a function from state and event to the
//! next state and what to do. The caller sleeps, starts executions and
//! reports back; every decision is made here.

use crate::cron_expr::{cron_form, cron_next_after};
use crate::discovery::{Job, JobView};
use crate::gate::{gate_after_finish, tick_decision, OverlapGate, OverlapPolicy, Tick};
use crate::interval::{Interval, NANOS_PER_SEC};
use crate::schedule::{JobSchedule, ScheduleView};
use crate::timestamp::Timestamp;
use vstd::prelude::*;

verus! {

/// The longest interval, in nanoseconds.
pub const MAX_INTERVAL_NANOS: i128 = 18_446_744_073_709_551_615_999_999_999;

/// Due times keep within this distance of the epoch, in nanoseconds.
pub const DUE_LIMIT: i128 = 1_000_000_000_000_000_000_000_000_000_000;

/// Why the loop of a job gave up.
#[derive(Clone, Copy, Debug, PartialEq, Eq, Structural)]
pub enum LoopError {
    /// The job is to run every zero seconds.
    ZeroInterval,
    /// The cron expression never fires again.
    NoUpcomingOccurrence,
}

/// Where the loop of a job stands.
#[derive(Clone, Copy, Debug, PartialEq, Eq, Structural)]
pub enum LoopState {
    /// The next tick is due at this time, in nanoseconds since the epoch.
    Waiting { due: i128 },
    /// The loop has ended.
    Stopped,
}

/// What the caller reports to the loop.
#[derive(Clone, Copy, Debug, PartialEq, Eq, Structural)]
pub enum LoopEvent {
    /// The sleep that the last step asked for is over (or was cut short).
    Wake { now: Timestamp },
    /// An execution that an earlier tick started has ended.
    Finished,
    /// Shutdown was signalled.
    Cancel,
}

/// What the caller does after a step.
#[derive(Clone, Copy, Debug, PartialEq, Eq, Structural)]
pub enum Next {
    /// Sleep this long, then report `Wake`.
    Sleep(Interval),
    /// Go on with the sleep that is under way.
    Resume,
    /// Leave the loop, with the error that ended it if there is one.
    Stop(Option<LoopError>),
}

/// The outcome of a step: whether a tick happened and what it came to, and
/// how to go on.
#[derive(Clone, Copy, Debug, PartialEq, Eq, Structural)]
pub struct LoopAction {
    pub tick: Option<Tick>,
    pub next: Next,
}

/// A step of the loop as a plain value: the overlap gate, the state and the action
/// after it.
pub struct Stepped {
    pub gate: OverlapGate,
    pub state: LoopState,
    pub action: LoopAction,
}

impl LoopState {
    /// The due time is within `DUE_LIMIT`.
    pub open spec fn wf(&self) -> bool {
        match *self {
            LoopState::Waiting { due } => -DUE_LIMIT <= due <= DUE_LIMIT,
            LoopState::Stopped => true,
        }
    }
}

impl LoopEvent {
    /// The time of a wake is well formed.
    pub open spec fn wf(&self) -> bool {
        match *self {
            LoopEvent::Wake { now } => now.wf(),
            _ => true,
        }
    }
}

/// The due time that follows `due` for a job that runs every `period`, seen
/// at `now`. The due times lie one period apart. Where one or more of them
/// were missed, they are made up for by a single tick that is due at once:
/// the latest of the missed times.
pub open spec fn next_interval_due(due: int, period: int, now: int) -> int {
    if due + period > now {
        due + period
    } else {
        due + ((now - due) / period) * period
    }
}

/// How long to sleep at `now` for a tick that is due at `due`: not at all
/// where it is overdue, and no longer than the longest interval.
pub open spec fn delay_of(due: int, now: int) -> Interval {
    let d = due - now;
    if d <= 0 {
        Interval { secs: 0, nanos: 0 }
    } else if d >= MAX_INTERVAL_NANOS {
        Interval { secs: u64::MAX, nanos: (NANOS_PER_SEC - 1) as u32 }
    } else {
        Interval { secs: (d / 1_000_000_000) as u64, nanos: (d % 1_000_000_000) as u32 }
    }
}

/// The state and the wait once the next due time is known.
pub open spec fn waiting_for(due: int, now: Timestamp) -> (LoopState, Next) {
    (LoopState::Waiting { due: due as i128 }, Next::Sleep(delay_of(due, now.total_nanos())))
}

/// How a job that runs every `period` goes on at `now`: `last_due` is the
/// due time of the tick that just happened, or nothing at the start of the
/// loop, where the job first waits one full interval. A period of zero ends
/// the loop with an error.
pub open spec fn planned_every(period: Interval, last_due: Option<int>, now: Timestamp) -> (
    LoopState,
    Next,
) {
    if period.total_nanos() == 0 {
        (LoopState::Stopped, Next::Stop(Some(LoopError::ZeroInterval)))
    } else {
        waiting_for(
            match last_due {
                None => now.total_nanos() + period.total_nanos(),
                Some(due) => next_interval_due(due, period.total_nanos() as int, now.total_nanos()),
            },
            now,
        )
    }
}

/// How a cron job goes on at `now`: `upcoming` is the next time that its
/// expression matches, in seconds since the epoch. Where there is none, the
/// loop ends with an error.
pub open spec fn planned_cron(upcoming: Option<i64>, now: Timestamp) -> (LoopState, Next) {
    match upcoming {
        Some(secs) => waiting_for(secs * 1_000_000_000, now),
        None => (LoopState::Stopped, Next::Stop(Some(LoopError::NoUpcomingOccurrence))),
    }
}

/// How the loop of a schedule goes on at `now`.
pub open spec fn planned(schedule: ScheduleView, last_due: Option<int>, now: Timestamp) -> (
    LoopState,
    Next,
) {
    match schedule {
        ScheduleView::Every(period) => planned_every(period, last_due, now),
        ScheduleView::Cron(source) => planned_cron(
            cron_next_after(cron_form(source), now.secs, now.nanos),
            now,
        ),
    }
}

/// The start of a loop: no tick, and the first wait.
pub open spec fn started(job: JobView, now: Timestamp) -> (LoopState, LoopAction) {
    let (state, next) = planned(job.schedule, None, now);
    (state, LoopAction { tick: None, next })
}

/// One step of the loop.
///
/// A cancellation ends the loop. The end of an execution gives the permit
/// back and changes nothing else. A wake before the due time goes back to
/// sleep; a wake at or after it is a tick, which the overlap policy decides,
/// and after which the next due time is worked out from the time of the wake.
pub open spec fn stepped(job: JobView, state: LoopState, event: LoopEvent) -> Stepped {
    match event {
        LoopEvent::Cancel => Stepped {
            gate: job.gate,
            state: LoopState::Stopped,
            action: LoopAction { tick: None, next: Next::Stop(None) },
        },
        LoopEvent::Finished => Stepped {
            gate: gate_after_finish(job.overlap, job.gate),
            state,
            action: LoopAction { tick: None, next: Next::Resume },
        },
        LoopEvent::Wake { now } => match state {
            LoopState::Stopped => Stepped {
                gate: job.gate,
                state,
                action: LoopAction { tick: None, next: Next::Stop(None) },
            },
            LoopState::Waiting { due } => if now.total_nanos() < due {
                Stepped {
                    gate: job.gate,
                    state,
                    action: LoopAction {
                        tick: None,
                        next: Next::Sleep(delay_of(due as int, now.total_nanos())),
                    },
                }
            } else {
                let (tick, gate) = tick_decision(job.overlap, job.gate);
                let (after, next) = planned(job.schedule, Some(due as int), now);
                Stepped { gate, state: after, action: LoopAction { tick: Some(tick), next } }
            },
        },
    }
}

/// The interval in nanoseconds.
fn interval_nanos(iv: Interval) -> (n: i128)
    requires
        iv.wf(),
    ensures
        n == iv.total_nanos(),
        0 <= n <= MAX_INTERVAL_NANOS,
{
    (iv.secs as i128) * 1_000_000_000 + (iv.nanos as i128)
}

/// The timestamp in nanoseconds since the epoch.
fn timestamp_nanos(t: Timestamp) -> (n: i128)
    requires
        t.wf(),
    ensures
        n == t.total_nanos(),
        -DUE_LIMIT < n < DUE_LIMIT,
{
    (t.secs as i128) * 1_000_000_000 + (t.nanos as i128)
}

/// How long to sleep at `now` for a tick that is due at `due`.
pub fn delay_until(due: i128, now: Timestamp) -> (d: Interval)
    requires
        -DUE_LIMIT <= due <= DUE_LIMIT,
        now.wf(),
    ensures
        d == delay_of(due as int, now.total_nanos()),
        d.wf(),
{
    let d: i128 = due - timestamp_nanos(now);
    if d <= 0 {
        Interval { secs: 0, nanos: 0 }
    } else if d >= MAX_INTERVAL_NANOS {
        Interval { secs: u64::MAX, nanos: NANOS_PER_SEC - 1 }
    } else {
        let n: u128 = d as u128;
        Interval { secs: (n / 1_000_000_000) as u64, nanos: (n % 1_000_000_000) as u32 }
    }
}

/// The due time that follows `due` for a job that runs every `period`
/// nanoseconds, after a tick at `now`.
pub fn following_interval_due(due: i128, period: i128, now: i128) -> (r: i128)
    requires
        0 < period <= MAX_INTERVAL_NANOS,
        -DUE_LIMIT <= due <= now < DUE_LIMIT,
    ensures
        r == next_interval_due(due as int, period as int, now as int),
        due < r,
        r <= due + period || r <= now,
{
    let candidate: i128 = due + period;
    if candidate > now {
        candidate
    } else {
        let elapsed: u128 = (now - due) as u128;
        let p: u128 = period as u128;
        let missed: u128 = elapsed / p;
        assert(p <= missed * p <= elapsed) by (nonlinear_arith)
            requires
                missed == elapsed / p,
                0 < p <= elapsed,
        ;
        let back: u128 = missed * p;
        due + (back as i128)
    }
}

/// An optional due time as a plain value.
pub open spec fn optional_due(due: Option<i128>) -> Option<int> {
    match due {
        Some(d) => Some(d as int),
        None => None,
    }
}

/// Says how a job that runs every `period` goes on at `now`.
pub fn plan_every(period: Interval, last_due: Option<i128>, now: Timestamp) -> (r: (
    LoopState,
    Next,
))
    requires
        period.wf(),
        now.wf(),
        last_due matches Some(due) ==> -DUE_LIMIT <= due <= now.total_nanos(),
    ensures
        r == planned_every(period, optional_due(last_due), now),
        r.0.wf(),
        r.1 matches Next::Sleep(d) ==> d.wf(),
{
    let p = interval_nanos(period);
    if p == 0 {
        return (LoopState::Stopped, Next::Stop(Some(LoopError::ZeroInterval)));
    }
    let due: i128 = match last_due {
        None => timestamp_nanos(now) + p,
        Some(due) => following_interval_due(due, p, timestamp_nanos(now)),
    };
    (LoopState::Waiting { due }, Next::Sleep(delay_until(due, now)))
}

/// Says how a cron job goes on at `now`, given the next time that its
/// expression matches.
pub fn plan_cron(upcoming: Option<i64>, now: Timestamp) -> (r: (LoopState, Next))
    requires
        now.wf(),
    ensures
        r == planned_cron(upcoming, now),
        r.0.wf(),
        r.1 matches Next::Sleep(d) ==> d.wf(),
{
    match upcoming {
        Some(secs) => {
            let due: i128 = (secs as i128) * 1_000_000_000;
            (LoopState::Waiting { due }, Next::Sleep(delay_until(due, now)))
        },
        None => (LoopState::Stopped, Next::Stop(Some(LoopError::NoUpcomingOccurrence))),
    }
}

/// Says how the loop of a schedule goes on at `now`.
fn plan(schedule: &JobSchedule, last_due: Option<i128>, now: Timestamp) -> (r: (LoopState, Next))
    requires
        schedule.wf(),
        now.wf(),
        last_due matches Some(due) ==> -DUE_LIMIT <= due <= now.total_nanos(),
    ensures
        r == planned(schedule@, optional_due(last_due), now),
        r.0.wf(),
        r.1 matches Next::Sleep(d) ==> d.wf(),
{
    match schedule {
        JobSchedule::Every(period) => plan_every(*period, last_due, now),
        JobSchedule::Cron(expr) => plan_cron(expr.next_after(now), now),
    }
}

/// Starts the loop of a job at `now`: no tick yet, only the first wait.
pub fn start_loop(job: &Job, now: Timestamp) -> (r: (LoopState, LoopAction))
    requires
        job.wf(),
        now.wf(),
    ensures
        r == started(job@, now),
        r.0.wf(),
        r.1.next matches Next::Sleep(d) ==> d.wf(),
{
    let (state, next) = plan(&job.schedule, None, now);
    (state, LoopAction { tick: None, next })
}

/// Takes the loop of a job one step further: given where it stands and what
/// the caller reports, says where it stands next and what the caller does.
pub fn run_loop(job: &mut Job, state: LoopState, event: LoopEvent) -> (r: (LoopState, LoopAction))
    requires
        old(job).wf(),
        state.wf(),
        event.wf(),
    ensures
        final(job)@ == (JobView { gate: stepped(old(job)@, state, event).gate, ..old(job)@ }),
        r.0 == stepped(old(job)@, state, event).state,
        r.1 == stepped(old(job)@, state, event).action,
        final(job).wf(),
        r.0.wf(),
        r.1.next matches Next::Sleep(d) ==> d.wf(),
{
    let policy = job.overlap;
    match event {
        LoopEvent::Cancel => (
            LoopState::Stopped,
            LoopAction { tick: None, next: Next::Stop(None) },
        ),
        LoopEvent::Finished => {
            job.gate.on_finished(policy);
            (state, LoopAction { tick: None, next: Next::Resume })
        },
        LoopEvent::Wake { now } => match state {
            LoopState::Stopped => (state, LoopAction { tick: None, next: Next::Stop(None) }),
            LoopState::Waiting { due } => {
                if timestamp_nanos(now) < due {
                    (state, LoopAction { tick: None, next: Next::Sleep(delay_until(due, now)) })
                } else {
                    let tick = job.gate.on_tick(policy);
                    let (after, next) = plan(&job.schedule, Some(due), now);
                    (after, LoopAction { tick: Some(tick), next })
                }
            },
        },
    }
}

/// An interval job first fires no sooner than one full interval after the
/// start of its loop: the loop starts without a tick, asks for a sleep of
/// the whole interval, and any wake before that time has passed is no tick
/// either.
pub proof fn law_first_fire_waits_one_interval(job: JobView, start: Timestamp, wake: Timestamp)
    requires
        start.wf(),
        job.schedule matches ScheduleView::Every(period) && period.wf() && period.total_nanos() > 0,
        wake.total_nanos() < start.total_nanos() + job.schedule->Every_0.total_nanos(),
    ensures
        started(job, start).1.tick is None,
        started(job, start).1.next == Next::Sleep(job.schedule->Every_0),
        started(job, start).0 matches LoopState::Waiting { due } && due == start.total_nanos()
            + job.schedule->Every_0.total_nanos(),
        stepped(job, started(job, start).0, LoopEvent::Wake { now: wake }).action.tick is None,
        stepped(job, started(job, start).0, LoopEvent::Wake { now: wake }).state == started(
            job,
            start,
        ).0,
{
}

/// Missed ticks are made up for by one tick, not by one each. For a tick
/// that was due at `due` and happens at `now`, the next due time lies a
/// whole number of periods after `due`, later than `due`, and less than one
/// period before `now`: the timer does not fall behind. Where it is not
/// after `now` (ticks were missed), the tick that makes up for them is the
/// only one: the due time after it is in the future.
pub proof fn law_missed_ticks_coalesce(due: int, period: int, now: int)
    requires
        period > 0,
        due <= now,
    ensures
        ({
            let next = next_interval_due(due, period, now);
            &&& next > due
            &&& (next - due) % period == 0
            &&& next + period > now
            &&& next <= now ==> next_interval_due(next, period, now) == next + period
        }),
{
    let elapsed = now - due;
    let missed = elapsed / period;
    vstd::arithmetic::div_mod::lemma_fundamental_div_mod(elapsed, period);
    vstd::arithmetic::div_mod::lemma_mod_pos_bound(elapsed, period);
    vstd::arithmetic::div_mod::lemma_mod_multiples_basic(missed, period);
    vstd::arithmetic::div_mod::lemma_mod_multiples_basic(1, period);
    assert(period * missed == missed * period) by (nonlinear_arith);
    if due + period <= now {
        assert(missed >= 1) by (nonlinear_arith)
            requires
                elapsed == period * missed + elapsed % period,
                elapsed % period < period,
                elapsed >= period,
                period > 0,
        ;
        assert(missed * period >= period) by (nonlinear_arith)
            requires
                missed >= 1,
                period > 0,
        ;
    }
}

/// A wake at or after the due time is a tick, and the overlap policy decides
/// what it comes to. Under `Skip`, a tick that finds the permit held is
/// skipped and leaves the permit as it is; one that finds it free takes it
/// and starts an execution. Under `Allow` every tick starts an execution and
/// the permit is never touched.
pub proof fn law_tick_follows_policy(job: JobView, due: i128, now: Timestamp)
    requires
        now.total_nanos() >= due,
    ensures
        ({
            let step = stepped(job, LoopState::Waiting { due }, LoopEvent::Wake { now });
            &&& step.action.tick is Some
            &&& (step.action.tick->0, step.gate) == tick_decision(job.overlap, job.gate)
            &&& job.overlap == OverlapPolicy::Skip && job.gate.held ==> step.action.tick
                == Some(Tick::Skip) && step.gate == job.gate
            &&& job.overlap == OverlapPolicy::Skip && !job.gate.held
                ==> step.action.tick == Some(Tick::Execute) && step.gate.held
            &&& job.overlap == OverlapPolicy::Allow ==> step.action.tick == Some(
                Tick::Execute,
            ) && step.gate == job.gate
        }),
{
}

/// Cancellation ends the loop at once, whatever it was waiting for, and
/// leaves the executions in flight alone: the permit stays where it is until
/// the execution reports its end. A loop that has stopped ticks no more.
pub proof fn law_cancel_stops_the_loop(job: JobView, state: LoopState, now: Timestamp)
    ensures
        stepped(job, state, LoopEvent::Cancel).state == LoopState::Stopped,
        stepped(job, state, LoopEvent::Cancel).gate == job.gate,
        stepped(job, state, LoopEvent::Cancel).action == (LoopAction {
            tick: None,
            next: Next::Stop(None),
        }),
        stepped(job, LoopState::Stopped, LoopEvent::Wake { now }).state == LoopState::Stopped,
        stepped(job, LoopState::Stopped, LoopEvent::Wake { now }).action.tick is None,
        stepped(job, LoopState::Stopped, LoopEvent::Finished).state == LoopState::Stopped,
        stepped(job, LoopState::Stopped, LoopEvent::Finished).gate == gate_after_finish(
            job.overlap,
            job.gate,
        ),
{
}

} // verus!
