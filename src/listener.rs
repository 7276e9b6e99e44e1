use vstd::prelude::*;
use crate::events::{EventBridge, ToastKind, is_error_toast, is_problems_invalidation};

verus! {

/// Failures of the listener manager.
#[derive(Debug, Clone, Copy, PartialEq, Eq, Structural)]
pub enum ListenerError {
    /// A listener is already active.
    AlreadyRunning,
    /// No listener is active.
    NotRunning,
    /// The address could not be bound.
    IOError,
}

/// The single listener slot: the sending end of the active listener's
/// shutdown signal, if one is active.
pub struct CompetitiveCompanionListenerState<S> {
    pub shutdown_tx: Option<S>,
}

/// The slot and the outcome after a launch from `slot`, where `bound` is the
/// shutdown sender of a freshly bound listener, or `None` if binding failed.
pub open spec fn launch_step<S>(slot: Option<S>, bound: Option<S>) -> (Option<S>, Result<(), ListenerError>) {
    if slot is Some {
        (slot, Err(ListenerError::AlreadyRunning))
    } else {
        match bound {
            None => (slot, Err(ListenerError::IOError)),
            Some(s) => (Some(s), Ok(())),
        }
    }
}

/// The slot and the outcome after a shutdown from `slot`; on success the
/// sender to signal is handed out.
pub open spec fn shutdown_step<S>(slot: Option<S>) -> (Option<S>, Result<S, ListenerError>) {
    match slot {
        Some(s) => (None, Ok(s)),
        None => (None, Err(ListenerError::NotRunning)),
    }
}

impl<S> CompetitiveCompanionListenerState<S> {
    pub fn new() -> (r: Self)
        ensures
            r.shutdown_tx is None,
    {
        CompetitiveCompanionListenerState { shutdown_tx: None }
    }

    /// Whether a listener is active.
    pub fn is_running(&self) -> (r: bool)
        ensures
            r == self.shutdown_tx is Some,
    {
        self.shutdown_tx.is_some()
    }
}

/// Records a launch. Fails with `AlreadyRunning` if a listener is active,
/// else with `IOError` if binding failed; on success the new listener's
/// shutdown sender takes the slot.
pub fn launch_competitive_companion_listener<S>(
    state: &mut CompetitiveCompanionListenerState<S>,
    bound: Option<S>,
) -> (r: Result<(), ListenerError>)
    ensures
        (final(state).shutdown_tx, r) == launch_step(old(state).shutdown_tx, bound),
{
    if state.shutdown_tx.is_some() {
        return Err(ListenerError::AlreadyRunning);
    }
    match bound {
        None => Err(ListenerError::IOError),
        Some(s) => {
            state.shutdown_tx = Some(s);
            Ok(())
        },
    }
}

/// Clears the slot and hands out the sender to signal; `NotRunning` if no
/// listener is active.
pub fn shutdown_competitive_companion_listener<S>(
    state: &mut CompetitiveCompanionListenerState<S>,
) -> (r: Result<S, ListenerError>)
    ensures
        (final(state).shutdown_tx, r) == shutdown_step(old(state).shutdown_tx),
{
    match state.shutdown_tx.take() {
        Some(s) => Ok(s),
        None => Err(ListenerError::NotRunning),
    }
}

/// Of two launches made one after the other on one slot (as the lock makes
/// any two concurrent launches), at most one succeeds; from an empty slot,
/// with both binds successful, the first succeeds and the second fails with
/// `AlreadyRunning`.
pub proof fn lemma_single_instance<S>(slot: Option<S>, a: Option<S>, b: Option<S>)
    ensures
        ({
            let (mid, ra) = launch_step(slot, a);
            let (_, rb) = launch_step(mid, b);
            &&& !(ra is Ok && rb is Ok)
            &&& (slot is None && a is Some) ==> ra is Ok && rb == Err::<(), ListenerError>(
                ListenerError::AlreadyRunning,
            )
        }),
{
}

/// Shutting down a slot that was never filled, or that was already shut
/// down, fails with `NotRunning`.
pub proof fn lemma_shutdown_needs_listener<S>(slot: Option<S>)
    ensures
        shutdown_step::<S>(None).1 == Err::<S, ListenerError>(ListenerError::NotRunning),
        shutdown_step(shutdown_step(slot).0).1 == Err::<S, ListenerError>(ListenerError::NotRunning),
{
}

/// What wakes the accept loop.
pub enum LoopEvent {
    /// The shutdown signal arrived.
    Shutdown,
    /// A connection was accepted.
    Accepted,
}

/// What the accept loop does next.
#[derive(Debug, Clone, Copy, PartialEq, Eq, Structural)]
pub enum LoopStep {
    /// Serve the connection in its own task and keep accepting.
    Serve,
    /// Leave the loop.
    Stop,
}

/// The accept loop stops on the shutdown signal and serves every accepted
/// connection, whatever became of earlier ones.
pub fn next_step(event: LoopEvent) -> (r: LoopStep)
    ensures
        r == (match event {
            LoopEvent::Shutdown => LoopStep::Stop,
            LoopEvent::Accepted => LoopStep::Serve,
        }),
{
    match event {
        LoopEvent::Shutdown => LoopStep::Stop,
        LoopEvent::Accepted => LoopStep::Serve,
    }
}

/// The text of the toast for a connection from `peer` that failed with `err`.
pub open spec fn failure_text(peer: Seq<char>, err: Seq<char>) -> Seq<char> {
    "failed to handle competitive companion message from "@ + peer + ": "@ + err
}

/// Reports how one connection ended: a successful ingestion asks to refresh
/// the list of problems, a failure gives exactly one error toast. Nothing
/// else is reported, and the listener goes on either way.
pub fn report_connection(events: &mut EventBridge, peer: &str, outcome: Result<String, String>)
    ensures
        final(events).pending@.len() == old(events).pending@.len() + 1,
        final(events).pending@.drop_last() == old(events).pending@,
        match outcome {
            Ok(_) => is_problems_invalidation(final(events).pending@.last()),
            Err(e) => is_error_toast(final(events).pending@.last(), failure_text(peer@, e@)),
        },
{
    match outcome {
        Ok(_) => events.invalidate_problems(),
        Err(e) => {
            let text = String::from_str("failed to handle competitive companion message from ")
                .concat(peer).concat(": ").concat(e.as_str());
            events.toast(ToastKind::Error, text);
            assert(events.pending@.drop_last() == old(events).pending@);
        },
    }
}

} // verus!
