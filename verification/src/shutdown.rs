//! The shutdown and lifecycle protocol that coordinates running tasks.
//!
//! The real signal listeners, timers and watch channels live outside the
//! library. What is held here is the protocol they must follow: a shutdown
//! flag that can only ever go from off to on, and the phase machine a
//! dispatcher steps through from configuration to drained.

use vstd::prelude::*;

verus! {

/// The shutdown flag: off until triggered, and never off again afterwards.
#[derive(Debug, PartialEq, Eq, Clone, Copy)]
pub struct ShutdownSignal {
    triggered: bool,
}

impl View for ShutdownSignal {
    type V = bool;

    closed spec fn view(&self) -> bool {
        self.triggered
    }
}

impl ShutdownSignal {
    /// A fresh, untriggered signal.
    pub fn new() -> (r: ShutdownSignal)
        ensures
            !r@,
    {
        ShutdownSignal { triggered: false }
    }

    /// Request shutdown. The flag is on afterwards, whatever it was.
    pub fn trigger(&mut self)
        ensures
            final(self)@,
    {
        self.triggered = true;
    }

    /// What a subscriber observes.
    pub fn is_triggered(&self) -> (r: bool)
        ensures
            r == self@,
    {
        self.triggered
    }
}

/// The transitions a shutdown flag may take: it stays, or it is triggered.
/// Nothing ever clears it.
pub open spec fn shutdown_step(pre: bool, post: bool) -> bool {
    post == pre || post == true
}

/// Once the flag is on, every later observation sees it on: no step of the
/// protocol can take it back to off.
pub proof fn lemma_shutdown_monotonic(pre: bool, post: bool)
    requires
        shutdown_step(pre, post),
        pre,
    ensures
        post,
{
}

/// The phases a dispatcher passes through.
#[derive(Debug, PartialEq, Eq, Clone, Copy)]
pub enum DispatchPhase {
    Configured,
    Starting,
    Running,
    ShuttingDown,
    Drained,
}

/// The events that drive the dispatch lifecycle.
#[derive(Debug, PartialEq, Eq, Clone, Copy)]
pub enum DispatchEvent {
    StartRequested,
    AllReady,
    ShutdownRequested,
    GraceElapsed,
}

/// How far along the lifecycle a phase is.
pub open spec fn phase_rank(p: DispatchPhase) -> int {
    match p {
        DispatchPhase::Configured => 0,
        DispatchPhase::Starting => 1,
        DispatchPhase::Running => 2,
        DispatchPhase::ShuttingDown => 3,
        DispatchPhase::Drained => 4,
    }
}

/// The lifecycle transition function: start moves a configured dispatcher
/// to starting; readiness of all tasks moves it to running; a shutdown
/// request moves a starting or running dispatcher to shutting down; the
/// grace period elapsing drains it. Any other event leaves the phase as it
/// is.
pub open spec fn spec_next_phase(p: DispatchPhase, e: DispatchEvent) -> DispatchPhase {
    match (p, e) {
        (DispatchPhase::Configured, DispatchEvent::StartRequested) => DispatchPhase::Starting,
        (DispatchPhase::Starting, DispatchEvent::AllReady) => DispatchPhase::Running,
        (DispatchPhase::Starting, DispatchEvent::ShutdownRequested) => DispatchPhase::ShuttingDown,
        (DispatchPhase::Running, DispatchEvent::ShutdownRequested) => DispatchPhase::ShuttingDown,
        (DispatchPhase::ShuttingDown, DispatchEvent::GraceElapsed) => DispatchPhase::Drained,
        _ => p,
    }
}

/// Step the lifecycle by one event.
pub fn next_phase(p: DispatchPhase, e: DispatchEvent) -> (r: DispatchPhase)
    ensures
        r == spec_next_phase(p, e),
{
    match (p, e) {
        (DispatchPhase::Configured, DispatchEvent::StartRequested) => DispatchPhase::Starting,
        (DispatchPhase::Starting, DispatchEvent::AllReady) => DispatchPhase::Running,
        (DispatchPhase::Starting, DispatchEvent::ShutdownRequested) => DispatchPhase::ShuttingDown,
        (DispatchPhase::Running, DispatchEvent::ShutdownRequested) => DispatchPhase::ShuttingDown,
        (DispatchPhase::ShuttingDown, DispatchEvent::GraceElapsed) => DispatchPhase::Drained,
        (q, _) => q,
    }
}

/// The lifecycle only moves forward: no event takes a dispatcher to an
/// earlier phase; in particular a dispatcher that has begun shutting down
/// never runs again.
pub proof fn lemma_phase_monotonic(p: DispatchPhase, e: DispatchEvent)
    ensures
        phase_rank(spec_next_phase(p, e)) >= phase_rank(p),
{
}

/// A drained dispatcher is final: no event moves it anywhere else.
pub proof fn lemma_drained_terminal(e: DispatchEvent)
    ensures
        spec_next_phase(DispatchPhase::Drained, e) == DispatchPhase::Drained,
{
}

} // verus!
