use vstd::prelude::*;

verus! {

/// Where the shutdown handshake stands.
#[derive(Debug, Clone, Copy, PartialEq, Eq, Structural)]
pub enum ShutdownPhase {
    /// The dashboard runs.
    Running,
    /// The process group was signalled; the handler has not confirmed yet.
    Signalled,
    /// The handler confirmed; the terminal may be restored.
    Confirmed,
}

/// What happened.
#[derive(Debug, Clone, Copy, PartialEq, Eq, Structural)]
pub enum ShutdownEvent {
    /// The event loop returned on a quit action.
    Quit,
    /// The signal handler sent its confirmation.
    Confirmation,
}

/// What the caller must do next.
#[derive(Debug, Clone, Copy, PartialEq, Eq, Structural)]
pub enum ShutdownAction {
    /// Nothing yet: keep running or keep waiting for the confirmation.
    Wait,
    /// Install the handler and signal the whole process group.
    SignalGroup,
    /// Restore the terminal and return.
    RestoreTerminal,
}

pub open spec fn spec_shutdown_step(phase: ShutdownPhase, event: ShutdownEvent) -> (ShutdownPhase, ShutdownAction) {
    match (phase, event) {
        (ShutdownPhase::Running, ShutdownEvent::Quit) => (ShutdownPhase::Signalled, ShutdownAction::SignalGroup),
        (ShutdownPhase::Signalled, ShutdownEvent::Confirmation) => (ShutdownPhase::Confirmed, ShutdownAction::RestoreTerminal),
        _ => (phase, ShutdownAction::Wait),
    }
}

/// The next phase and action of the handshake.
pub fn shutdown_step(phase: ShutdownPhase, event: ShutdownEvent) -> (r: (ShutdownPhase, ShutdownAction))
    ensures
        r == spec_shutdown_step(phase, event),
{
    match (phase, event) {
        (ShutdownPhase::Running, ShutdownEvent::Quit) => (ShutdownPhase::Signalled, ShutdownAction::SignalGroup),
        (ShutdownPhase::Signalled, ShutdownEvent::Confirmation) => (ShutdownPhase::Confirmed, ShutdownAction::RestoreTerminal),
        _ => (phase, ShutdownAction::Wait),
    }
}

/// The phase after `events`, from `Running`.
pub open spec fn phase_after(events: Seq<ShutdownEvent>) -> ShutdownPhase
    decreases events.len(),
{
    if events.len() == 0 {
        ShutdownPhase::Running
    } else {
        spec_shutdown_step(phase_after(events.drop_last()), events.last()).0
    }
}

/// The terminal is restored only after a quit has had the group signalled
/// and a confirmation came after that: for any run of events, the step that
/// orders the restore is a confirmation, taken in the signalled phase, and
/// some earlier event was a quit.
pub proof fn lemma_restore_needs_confirmation(events: Seq<ShutdownEvent>, e: ShutdownEvent)
    requires
        spec_shutdown_step(phase_after(events), e).1 == ShutdownAction::RestoreTerminal,
    ensures
        e == ShutdownEvent::Confirmation,
        phase_after(events) == ShutdownPhase::Signalled,
        exists|i: int| 0 <= i < events.len() && events[i] == ShutdownEvent::Quit,
{
    lemma_signalled_after_quit(events);
}

/// Once past `Running`, some event so far was a quit.
pub proof fn lemma_signalled_after_quit(events: Seq<ShutdownEvent>)
    ensures
        phase_after(events) != ShutdownPhase::Running ==> exists|i: int|
            0 <= i < events.len() && events[i] == ShutdownEvent::Quit,
    decreases events.len(),
{
    if events.len() > 0 {
        let prefix = events.drop_last();
        lemma_signalled_after_quit(prefix);
        if phase_after(prefix) != ShutdownPhase::Running {
            let i = choose|i: int| 0 <= i < prefix.len() && prefix[i] == ShutdownEvent::Quit;
            assert(events[i] == ShutdownEvent::Quit);
        } else if phase_after(events) != ShutdownPhase::Running {
            assert(events[events.len() - 1] == ShutdownEvent::Quit);
        }
    }
}

} // verus!
