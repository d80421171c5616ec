//! Shutdown: one cancellation for all loops, then the wait for them.

use vstd::prelude::*;

verus! {

/// What the coordinator knows: how many loops still run, whether
/// cancellation was broadcast, and whether a second signal ends the wait.
#[derive(Clone, Copy, Debug, PartialEq, Eq, Structural)]
pub struct ShutdownCoordinator {
    pub running: usize,
    pub cancelled: bool,
    pub immediate_exit: bool,
}

/// What the coordinator is told.
#[derive(Clone, Copy, Debug, PartialEq, Eq, Structural)]
pub enum ShutdownEvent {
    /// A termination signal arrived.
    Signal,
    /// A loop has returned.
    LoopReturned,
}

/// What the caller does next.
#[derive(Clone, Copy, Debug, PartialEq, Eq, Structural)]
pub enum ShutdownAction {
    /// Notify every loop of the cancellation, then go on waiting.
    Broadcast,
    /// Go on waiting.
    Wait,
    /// Leave: the process may exit.
    Exit,
}

/// The coordinator and the action after an event.
///
/// The first signal is broadcast to the loops, the only broadcast there is.
/// After it the coordinator waits until every loop has returned; a further
/// signal ends the wait only where immediate exit is configured. Executions
/// in flight are not touched: a loop returns when it has observed the
/// cancellation.
pub open spec fn coordinated(c: ShutdownCoordinator, event: ShutdownEvent) -> (
    ShutdownCoordinator,
    ShutdownAction,
) {
    match event {
        ShutdownEvent::Signal => if c.running == 0 {
            (ShutdownCoordinator { cancelled: true, ..c }, ShutdownAction::Exit)
        } else if !c.cancelled {
            (ShutdownCoordinator { cancelled: true, ..c }, ShutdownAction::Broadcast)
        } else if c.immediate_exit {
            (c, ShutdownAction::Exit)
        } else {
            (c, ShutdownAction::Wait)
        },
        ShutdownEvent::LoopReturned => if c.running <= 1 {
            (ShutdownCoordinator { running: 0, ..c }, ShutdownAction::Exit)
        } else {
            (ShutdownCoordinator { running: (c.running - 1) as usize, ..c }, ShutdownAction::Wait)
        },
    }
}

impl ShutdownCoordinator {
    /// A coordinator for the given number of loops.
    pub fn new(loops: usize, immediate_exit: bool) -> (c: ShutdownCoordinator)
        ensures
            c == (ShutdownCoordinator { running: loops, cancelled: false, immediate_exit }),
    {
        ShutdownCoordinator { running: loops, cancelled: false, immediate_exit }
    }

    /// Takes note of an event and says what to do.
    pub fn on_event(&mut self, event: ShutdownEvent) -> (action: ShutdownAction)
        ensures
            (*final(self), action) == coordinated(*old(self), event),
    {
        match event {
            ShutdownEvent::Signal => {
                if self.running == 0 {
                    self.cancelled = true;
                    ShutdownAction::Exit
                } else if !self.cancelled {
                    self.cancelled = true;
                    ShutdownAction::Broadcast
                } else if self.immediate_exit {
                    ShutdownAction::Exit
                } else {
                    ShutdownAction::Wait
                }
            },
            ShutdownEvent::LoopReturned => {
                if self.running <= 1 {
                    self.running = 0;
                    ShutdownAction::Exit
                } else {
                    self.running = self.running - 1;
                    ShutdownAction::Wait
                }
            },
        }
    }
}

/// Cancellation is broadcast once: only by a signal that finds it not yet
/// broadcast, and after any signal it counts as broadcast for good. The
/// coordinator lets the process exit only when no loop is left, or on a
/// further signal where immediate exit is configured.
pub proof fn law_single_broadcast(c: ShutdownCoordinator, event: ShutdownEvent)
    ensures
        coordinated(c, event).1 == ShutdownAction::Broadcast ==> event == ShutdownEvent::Signal
            && !c.cancelled && coordinated(c, event).0.cancelled,
        c.cancelled ==> coordinated(c, event).0.cancelled && coordinated(c, event).1
            != ShutdownAction::Broadcast,
        event == ShutdownEvent::Signal ==> coordinated(c, event).0.cancelled,
        coordinated(c, event).1 == ShutdownAction::Exit <==> coordinated(c, event).0.running == 0
            || (event == ShutdownEvent::Signal && c.cancelled && c.immediate_exit),
        coordinated(c, event).0.running <= c.running,
{
}

} // verus!
