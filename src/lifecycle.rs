use vstd::prelude::*;

verus! {

/// Where the injected module stands.
#[derive(Clone, Copy, Debug, PartialEq, Eq, Structural)]
pub enum Phase {
    Attached,
    Serving,
    Ejected,
}

/// Why serving ended.
#[derive(Clone, Copy, Debug, PartialEq, Eq, Structural)]
pub enum ExitReason {
    /// The dispatcher left its loop on its own.
    Completed,
    /// An external cancellation signal arrived.
    Cancelled,
    /// The hosting context ended with a panic or an error.
    HostFailed,
}

#[derive(Clone, Copy, Debug, PartialEq, Eq, Structural)]
pub enum LifecycleEvent {
    /// The control plane and the dispatcher are up.
    ServeStarted,
    /// Serving is over, for the reason given.
    ServeEnded(ExitReason),
}

#[derive(Clone, Copy, Debug, PartialEq, Eq, Structural)]
pub enum LifecycleAction {
    /// Begin serving.
    Serve,
    /// Eject the injected module.
    Eject,
    /// Nothing to do.
    Nothing,
}

/// One transition: the next phase and the action it asks for.
pub open spec fn lifecycle_step(p: Phase, e: LifecycleEvent) -> (Phase, LifecycleAction) {
    match (p, e) {
        (Phase::Attached, LifecycleEvent::ServeStarted) => (Phase::Serving, LifecycleAction::Serve),
        (Phase::Ejected, _) => (Phase::Ejected, LifecycleAction::Nothing),
        (_, LifecycleEvent::ServeEnded(_)) => (Phase::Ejected, LifecycleAction::Eject),
        (_, LifecycleEvent::ServeStarted) => (p, LifecycleAction::Nothing),
    }
}

/// The phase a run of events ends in, and how many ejections it asked for.
pub open spec fn lifecycle_run(p: Phase, events: Seq<LifecycleEvent>) -> (Phase, nat)
    decreases events.len(),
{
    if events.len() == 0 {
        (p, 0)
    } else {
        let (q, a) = lifecycle_step(p, events[0]);
        let (last, n) = lifecycle_run(q, events.subrange(1, events.len() as int));
        (last, n + if a == LifecycleAction::Eject {
            1nat
        } else {
            0nat
        })
    }
}

/// Whether serving ends somewhere in the run.
pub open spec fn serving_ends(events: Seq<LifecycleEvent>) -> bool
    decreases events.len(),
{
    if events.len() == 0 {
        false
    } else {
        events[0] is ServeEnded || serving_ends(events.subrange(1, events.len() as int))
    }
}

/// Sequences attach, serve and detach, so that the module is ejected exactly once.
pub struct Lifecycle {
    phase: Phase,
}

impl Lifecycle {
    pub closed spec fn spec_phase(&self) -> Phase {
        self.phase
    }

    /// A lifecycle starts once the module is injected.
    pub fn attached() -> (r: Lifecycle)
        ensures
            r.spec_phase() == Phase::Attached,
    {
        Lifecycle { phase: Phase::Attached }
    }

    pub fn phase(&self) -> (r: Phase)
        ensures
            r == self.spec_phase(),
    {
        self.phase
    }

    pub fn step(&mut self, e: LifecycleEvent) -> (a: LifecycleAction)
        ensures
            (final(self).spec_phase(), a) == lifecycle_step(old(self).spec_phase(), e),
    {
        match (self.phase, e) {
            (Phase::Attached, LifecycleEvent::ServeStarted) => {
                self.phase = Phase::Serving;
                LifecycleAction::Serve
            },
            (Phase::Ejected, _) => LifecycleAction::Nothing,
            (_, LifecycleEvent::ServeEnded(_)) => {
                self.phase = Phase::Ejected;
                LifecycleAction::Eject
            },
            (_, LifecycleEvent::ServeStarted) => LifecycleAction::Nothing,
        }
    }
}

/// Once ejected, a run asks for no further ejection.
pub proof fn lemma_no_eject_after_ejected(events: Seq<LifecycleEvent>)
    ensures
        lifecycle_run(Phase::Ejected, events) == (Phase::Ejected, 0nat),
    decreases events.len(),
{
    if events.len() > 0 {
        lemma_no_eject_after_ejected(events.subrange(1, events.len() as int));
    }
}

/// Whatever the events and whichever way serving ends (the dispatcher done,
/// a cancellation, the hosting context failing), a module that was attached
/// is ejected exactly once if serving ends, and never otherwise.
pub proof fn lemma_ejects_exactly_once(p: Phase, events: Seq<LifecycleEvent>)
    requires
        p != Phase::Ejected,
    ensures
        lifecycle_run(p, events).1 == if serving_ends(events) {
            1nat
        } else {
            0nat
        },
        serving_ends(events) ==> lifecycle_run(p, events).0 == Phase::Ejected,
    decreases events.len(),
{
    if events.len() > 0 {
        let rest = events.subrange(1, events.len() as int);
        let (q, a) = lifecycle_step(p, events[0]);
        if events[0] is ServeEnded {
            lemma_no_eject_after_ejected(rest);
        } else {
            lemma_ejects_exactly_once(q, rest);
        }
    }
}

} // verus!
