//! The refresh cycle: fetch, then either show the new snapshot and wait for
//! the timer, or keep the old snapshot and stop.
//!
//! The cycle is described here as a state machine over mathematical values.
//! It is driven from outside: whoever runs it carries out each effect and
//! hands back what happened as the next event.

use vstd::prelude::*;
use crate::record::RecordView;

verus! {

/// The time to wait after a successful fetch before the next one.
pub const REFRESH_INTERVAL_MS: u32 = 60_000;

/// Where the refresh cycle stands.
#[derive(Clone, Copy, Debug, PartialEq, Eq, Structural)]
pub enum Phase {
    /// No fetch was started yet.
    Idle,
    /// A fetch is in flight. No timer is armed.
    Fetching,
    /// The last fetch succeeded. The timer for the next one is armed.
    Ready,
    /// The last fetch failed. Nothing is in flight or armed: the cycle has
    /// stopped.
    FetchFailed,
}

/// What is to be done after a step of the cycle.
#[derive(Clone, Copy, Debug, PartialEq, Eq, Structural)]
pub enum Effect {
    /// Nothing.
    Nothing,
    /// Start a fetch of the server list.
    Fetch,
    /// Show the new snapshot, and arm the timer that starts the next fetch,
    /// in place of any timer armed before.
    ArmTimer { delay_ms: u32 },
}

impl Effect {
    /// Whether what is shown has to be drawn again.
    pub fn requests_render(&self) -> (render: bool)
        ensures
            render == (self is ArmTimer),
    {
        match self {
            Effect::ArmTimer { .. } => true,
            _ => false,
        }
    }
}

/// What can happen to the refresh cycle.
pub enum Event {
    /// The program has started, or the timer has fired.
    UpdateData,
    /// The fetch has returned these records.
    Updated(Seq<RecordView>),
    /// The fetch has failed.
    UpdateFailed,
}

/// The state of the refresh cycle.
pub struct State {
    pub phase: Phase,
    pub snapshot: Seq<RecordView>,
}

impl State {
    /// The state before anything has happened.
    pub open spec fn initial() -> State {
        State { phase: Phase::Idle, snapshot: Seq::empty() }
    }

    /// The number of fetches that were started and have not come back.
    pub open spec fn fetches_in_flight(self) -> nat {
        if self.phase is Fetching {
            1
        } else {
            0
        }
    }

    /// The number of timers that were armed and have not fired.
    pub open spec fn timers_pending(self) -> nat {
        if self.phase is Ready {
            1
        } else {
            0
        }
    }

    /// The state after an event. An event that the phase does not expect
    /// changes nothing.
    pub open spec fn next(self, event: Event) -> State {
        match event {
            Event::UpdateData => if self.phase is Idle || self.phase is Ready {
                State { phase: Phase::Fetching, snapshot: self.snapshot }
            } else {
                self
            },
            Event::Updated(records) => if self.phase is Fetching {
                State { phase: Phase::Ready, snapshot: records }
            } else {
                self
            },
            Event::UpdateFailed => if self.phase is Fetching {
                State { phase: Phase::FetchFailed, snapshot: self.snapshot }
            } else {
                self
            },
        }
    }

    /// What is to be done after an event.
    pub open spec fn effect(self, event: Event) -> Effect {
        match event {
            Event::UpdateData => if self.phase is Idle || self.phase is Ready {
                Effect::Fetch
            } else {
                Effect::Nothing
            },
            Event::Updated(_) => if self.phase is Fetching {
                Effect::ArmTimer { delay_ms: REFRESH_INTERVAL_MS }
            } else {
                Effect::Nothing
            },
            Event::UpdateFailed => Effect::Nothing,
        }
    }
}

/// From the start, a fetch that returns some records leaves exactly these
/// records as the snapshot and exactly one timer pending. When that timer
/// fires, exactly one fetch is started and no timer is left.
pub proof fn lemma_refresh_cycle(records: Seq<RecordView>)
    ensures
        ({
            let idle = State::initial();
            let fetching = idle.next(Event::UpdateData);
            let ready = fetching.next(Event::Updated(records));
            let again = ready.next(Event::UpdateData);
            &&& idle.snapshot.len() == 0
            &&& idle.fetches_in_flight() == 0 && idle.timers_pending() == 0
            &&& idle.effect(Event::UpdateData) == Effect::Fetch
            &&& fetching.fetches_in_flight() == 1 && fetching.timers_pending() == 0
            &&& fetching.effect(Event::Updated(records)) == (Effect::ArmTimer {
                delay_ms: REFRESH_INTERVAL_MS,
            })
            &&& ready.snapshot == records
            &&& ready.snapshot.len() == records.len()
            &&& ready.fetches_in_flight() == 0 && ready.timers_pending() == 1
            &&& ready.effect(Event::UpdateData) == Effect::Fetch
            &&& again.snapshot == records
            &&& again.fetches_in_flight() == 1 && again.timers_pending() == 0
        }),
{
}

/// A failed fetch leaves the snapshot as it was, arms no timer and starts no
/// fetch; the cycle has then stopped, whatever happens.
pub proof fn lemma_failure_keeps_snapshot(state: State, later: Event)
    ensures
        state.next(Event::UpdateFailed).snapshot == state.snapshot,
        state.effect(Event::UpdateFailed) == Effect::Nothing,
        state.phase is Fetching ==> {
            let failed = state.next(Event::UpdateFailed);
            &&& failed.phase is FetchFailed
            &&& failed.timers_pending() == 0
            &&& failed.fetches_in_flight() == 0
            &&& failed.next(later) == failed
            &&& failed.effect(later) == Effect::Nothing
        },
{
}

/// In every state at most one fetch is in flight or one timer pending, never
/// both. A fetch is started exactly when the cycle begins to fetch, a timer is
/// armed exactly when a fetch has succeeded, and the snapshot changes only
/// then.
pub proof fn lemma_one_at_a_time(state: State, event: Event)
    ensures
        state.fetches_in_flight() + state.timers_pending() <= 1,
        state.effect(event) == Effect::Fetch <==> state.fetches_in_flight() == 0 && state.next(
            event,
        ).fetches_in_flight() == 1,
        state.effect(event) is ArmTimer <==> state.phase is Fetching && state.next(
            event,
        ).timers_pending() == 1,
        state.next(event).snapshot != state.snapshot ==> state.phase is Fetching && event
            is Updated,
{
}

} // verus!
