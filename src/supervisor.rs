//! The outer lifecycle: run a session, back off, run the next one, forever,
//! until a shutdown signal arrives. Every session end is treated alike,
//! whatever its outcome.

use vstd::prelude::*;

verus! {

/// Backoff between sessions that the programs use, in milliseconds.
pub const DEFAULT_BACKOFF_MS: u64 = 1000;

#[derive(Clone, Copy, Debug, PartialEq, Eq, Structural)]
pub enum SupervisorState {
    /// No session is running.
    Idle,
    /// A session is running.
    Active,
}

#[derive(Clone, Copy, Debug, PartialEq, Eq, Structural)]
pub enum SessionOutcome {
    Completed,
    Failed,
}

#[derive(Clone, Copy, Debug, PartialEq, Eq, Structural)]
pub enum SupervisorEvent {
    /// The process has started.
    Startup,
    /// The running session returned.
    SessionEnded(SessionOutcome),
    /// The backoff delay has passed.
    BackoffElapsed,
    /// A shutdown signal was delivered.
    Shutdown,
}

#[derive(Clone, Copy, Debug, PartialEq, Eq, Structural)]
pub enum SupervisorAction {
    /// Run one session: handshake, then relay.
    StartSession,
    /// Wait this many milliseconds, then report `BackoffElapsed`.
    Backoff(u64),
    /// End the process.
    Exit,
    /// Nothing to do for this event.
    Ignore,
}

/// The transition function.
pub open spec fn supervisor_next(
    state: SupervisorState,
    event: SupervisorEvent,
    backoff_ms: u64,
) -> (SupervisorState, SupervisorAction) {
    match event {
        SupervisorEvent::Shutdown => (state, SupervisorAction::Exit),
        SupervisorEvent::Startup | SupervisorEvent::BackoffElapsed => match state {
            SupervisorState::Idle => (SupervisorState::Active, SupervisorAction::StartSession),
            SupervisorState::Active => (state, SupervisorAction::Ignore),
        },
        SupervisorEvent::SessionEnded(_) => match state {
            SupervisorState::Active => (SupervisorState::Idle, SupervisorAction::Backoff(backoff_ms)),
            SupervisorState::Idle => (state, SupervisorAction::Ignore),
        },
    }
}

pub struct Supervisor {
    pub state: SupervisorState,
    pub backoff_ms: u64,
}

impl Supervisor {
    pub fn new(backoff_ms: u64) -> (r: Supervisor)
        ensures
            r.state == SupervisorState::Idle,
            r.backoff_ms == backoff_ms,
    {
        Supervisor { state: SupervisorState::Idle, backoff_ms }
    }

    /// Takes one event and says what to do next.
    pub fn step(&mut self, event: SupervisorEvent) -> (r: SupervisorAction)
        ensures
            (final(self).state, r) == supervisor_next(old(self).state, event, old(self).backoff_ms),
            final(self).backoff_ms == old(self).backoff_ms,
    {
        match event {
            SupervisorEvent::Shutdown => SupervisorAction::Exit,
            SupervisorEvent::Startup | SupervisorEvent::BackoffElapsed => match self.state {
                SupervisorState::Idle => {
                    self.state = SupervisorState::Active;
                    SupervisorAction::StartSession
                },
                SupervisorState::Active => SupervisorAction::Ignore,
            },
            SupervisorEvent::SessionEnded(_) => match self.state {
                SupervisorState::Active => {
                    self.state = SupervisorState::Idle;
                    SupervisorAction::Backoff(self.backoff_ms)
                },
                SupervisorState::Idle => SupervisorAction::Ignore,
            },
        }
    }
}

/// Whatever a session's outcome, its end leads, after one backoff, to a new
/// session.
pub proof fn lemma_every_end_restarts(outcome: SessionOutcome, backoff_ms: u64)
    ensures
        supervisor_next(SupervisorState::Active, SupervisorEvent::SessionEnded(outcome), backoff_ms)
            == (SupervisorState::Idle, SupervisorAction::Backoff(backoff_ms)),
        supervisor_next(SupervisorState::Idle, SupervisorEvent::BackoffElapsed, backoff_ms) == (
            SupervisorState::Active,
            SupervisorAction::StartSession,
        ),
{
}

} // verus!
