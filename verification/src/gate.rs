//! The overlap gate of a job: a permit for one execution at a time.

use vstd::prelude::*;

verus! {

/// Whether a tick may start an execution while an earlier one still runs.
#[derive(Clone, Copy, Debug, PartialEq, Eq, Structural)]
pub enum OverlapPolicy {
    /// Every tick starts an execution.
    Allow,
    /// A tick is skipped while the previous execution is in flight.
    Skip,
}

/// What a tick comes to.
#[derive(Clone, Copy, Debug, PartialEq, Eq, Structural)]
pub enum Tick {
    /// An execution is started.
    Execute,
    /// Nothing is started: the previous execution is still in flight.
    Skip,
}

/// A gate with a single permit. Taking the permit never waits: it succeeds
/// or fails at once.
#[derive(Clone, Copy, Debug, PartialEq, Eq, Structural)]
pub struct OverlapGate {
    pub held: bool,
}

impl OverlapGate {
    /// A gate whose permit is free.
    pub fn new() -> (gate: OverlapGate)
        ensures
            !gate.held,
    {
        OverlapGate { held: false }
    }

    /// Takes the permit if it is free, and tells whether it did.
    pub fn try_acquire(&mut self) -> (acquired: bool)
        ensures
            acquired == !old(self).held,
            final(self).held,
    {
        if self.held {
            false
        } else {
            self.held = true;
            true
        }
    }

    /// Gives the permit back.
    pub fn release(&mut self)
        ensures
            !final(self).held,
    {
        self.held = false;
    }
}

/// What a tick comes to under `policy`, and the overlap gate after it.
/// Under `Allow` no permit is asked for; under `Skip` the tick takes the permit or
/// is skipped.
pub open spec fn tick_decision(policy: OverlapPolicy, gate: OverlapGate) -> (Tick, OverlapGate) {
    match policy {
        OverlapPolicy::Allow => (Tick::Execute, gate),
        OverlapPolicy::Skip => if gate.held {
            (Tick::Skip, gate)
        } else {
            (Tick::Execute, OverlapGate { held: true })
        },
    }
}

/// The overlap gate after an execution has ended: under `Skip` the permit is free
/// again.
pub open spec fn gate_after_finish(policy: OverlapPolicy, gate: OverlapGate) -> OverlapGate {
    match policy {
        OverlapPolicy::Allow => gate,
        OverlapPolicy::Skip => OverlapGate { held: false },
    }
}

impl OverlapGate {
    /// Decides a tick.
    pub fn on_tick(&mut self, policy: OverlapPolicy) -> (tick: Tick)
        ensures
            (tick, *final(self)) == tick_decision(policy, *old(self)),
    {
        match policy {
            OverlapPolicy::Allow => Tick::Execute,
            OverlapPolicy::Skip => if self.try_acquire() {
                Tick::Execute
            } else {
                Tick::Skip
            },
        }
    }

    /// Takes note that an execution has ended.
    pub fn on_finished(&mut self, policy: OverlapPolicy)
        ensures
            *final(self) == gate_after_finish(policy, *old(self)),
    {
        match policy {
            OverlapPolicy::Allow => {},
            OverlapPolicy::Skip => self.release(),
        }
    }
}

/// What happens to a gate: a tick arrives, or an execution ends.
pub enum GateEvent {
    Tick,
    Finished,
}

/// A gate and the number of executions in flight.
pub struct GateRun {
    pub gate: OverlapGate,
    pub in_flight: nat,
}

/// The overlap gate and the executions in flight after the given events, from a
/// free gate with nothing in flight.
pub open spec fn replay(policy: OverlapPolicy, events: Seq<GateEvent>) -> GateRun
    decreases events.len(),
{
    if events.len() == 0 {
        GateRun { gate: OverlapGate { held: false }, in_flight: 0 }
    } else {
        let before = replay(policy, events.drop_last());
        match events.last() {
            GateEvent::Tick => {
                let (tick, gate) = tick_decision(policy, before.gate);
                GateRun {
                    gate,
                    in_flight: if tick == Tick::Execute {
                        before.in_flight + 1
                    } else {
                        before.in_flight
                    },
                }
            },
            GateEvent::Finished => GateRun {
                gate: gate_after_finish(policy, before.gate),
                in_flight: if before.in_flight > 0 {
                    (before.in_flight - 1) as nat
                } else {
                    0
                },
            },
        }
    }
}

/// Under `Skip` at most one execution is in flight, and the permit is held
/// exactly while one is. A tick that arrives while one is in flight is
/// skipped, and changes nothing.
pub proof fn law_skip_never_overlaps(events: Seq<GateEvent>)
    ensures
        replay(OverlapPolicy::Skip, events).in_flight <= 1,
        replay(OverlapPolicy::Skip, events).gate.held <==> replay(
            OverlapPolicy::Skip,
            events,
        ).in_flight == 1,
        replay(OverlapPolicy::Skip, events).in_flight == 1 ==> tick_decision(
            OverlapPolicy::Skip,
            replay(OverlapPolicy::Skip, events).gate,
        ).0 == Tick::Skip && replay(OverlapPolicy::Skip, events.push(GateEvent::Tick)) == replay(
            OverlapPolicy::Skip,
            events,
        ),
    decreases events.len(),
{
    if events.len() > 0 {
        law_skip_never_overlaps(events.drop_last());
    }
    assert(events.push(GateEvent::Tick).drop_last() =~= events);
}

/// Under `Allow` every tick starts an execution, whatever is in flight: the
/// gate is never taken, and two ticks in a row leave two more executions in
/// flight.
pub proof fn law_allow_overlaps(events: Seq<GateEvent>)
    ensures
        !replay(OverlapPolicy::Allow, events).gate.held,
        tick_decision(OverlapPolicy::Allow, replay(OverlapPolicy::Allow, events).gate).0
            == Tick::Execute,
        replay(OverlapPolicy::Allow, events.push(GateEvent::Tick)).in_flight == replay(
            OverlapPolicy::Allow,
            events,
        ).in_flight + 1,
        replay(
            OverlapPolicy::Allow,
            events.push(GateEvent::Tick).push(GateEvent::Tick),
        ).in_flight == replay(OverlapPolicy::Allow, events).in_flight + 2,
    decreases events.len(),
{
    if events.len() > 0 {
        law_allow_overlaps(events.drop_last());
    }
    let one = events.push(GateEvent::Tick);
    let two = one.push(GateEvent::Tick);
    assert(one.drop_last() =~= events);
    assert(two.drop_last() =~= one);
    assert(replay(OverlapPolicy::Allow, one).in_flight == replay(
        OverlapPolicy::Allow,
        events,
    ).in_flight + 1);
    assert(replay(OverlapPolicy::Allow, two).in_flight == replay(
        OverlapPolicy::Allow,
        one,
    ).in_flight + 1);
}

} // verus!
