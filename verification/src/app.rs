//! The application: the current snapshot, the refresh cycle that replaces it,
//! and the summary that is shown of it.

use vstd::prelude::*;
use crate::aggregate::{
    active_players,
    count_by,
    labels,
    player_totals,
    queued_players,
    Grouping,
};
use crate::counts::Counts;
use crate::ranking::{entry_views, is_ranking};
use crate::record::{views, RecordView, ServerRecord};
use crate::refresh::{Effect, Event, Phase, State, REFRESH_INTERVAL_MS};
use crate::tally::{sum_of_counts, tally};

verus! {

/// A message to the application.
pub enum Msg {
    /// Start a fetch: sent once at the start, and by the timer.
    UpdateData,
    /// The fetch has returned these records.
    Updated(Vec<ServerRecord>),
    /// The fetch has failed.
    UpdateFailed,
}

impl View for Msg {
    type V = Event;

    open spec fn view(&self) -> Event {
        match self {
            Msg::UpdateData => Event::UpdateData,
            Msg::Updated(records) => Event::Updated(views(records@)),
            Msg::UpdateFailed => Event::UpdateFailed,
        }
    }
}

/// What is shown of a snapshot: the player totals, and for each grouping the
/// labels with their counts in ranked order.
pub struct Summary {
    pub players: u128,
    pub queued_players: u128,
    pub maps: Vec<(String, usize)>,
    pub gamemodes: Vec<(String, usize)>,
    pub regions: Vec<(String, usize)>,
}

/// The application. It owns the snapshot, which changes only by being
/// replaced as a whole when a fetch has succeeded.
pub struct App {
    server_data: Vec<ServerRecord>,
    phase: Phase,
}

impl App {
    /// The state of the refresh cycle.
    pub closed spec fn state(&self) -> State {
        State { phase: self.phase, snapshot: views(self.server_data@) }
    }

    /// The snapshot: the servers as of the last fetch that succeeded.
    pub open spec fn snapshot(&self) -> Seq<RecordView> {
        self.state().snapshot
    }

    /// Makes the application, with an empty snapshot, and the message that
    /// is to be sent to it at once.
    pub fn create() -> (start: (App, Msg))
        ensures
            start.0.state() == State::initial(),
            start.1@ == Event::UpdateData,
    {
        let app = App { server_data: Vec::new(), phase: Phase::Idle };
        assert(views(app.server_data@) =~= Seq::empty());
        (app, Msg::UpdateData)
    }

    /// Takes one step of the refresh cycle, and says what is to be done next.
    ///
    /// A message that the current phase does not expect is dropped: a second
    /// fetch is never started while one is in flight, and the snapshot is
    /// replaced only by the answer to a fetch.
    pub fn update(&mut self, msg: Msg) -> (effect: Effect)
        ensures
            final(self).state() == old(self).state().next(msg@),
            effect == old(self).state().effect(msg@),
    {
        match msg {
            Msg::UpdateData => match self.phase {
                Phase::Idle | Phase::Ready => {
                    self.phase = Phase::Fetching;
                    Effect::Fetch
                },
                _ => Effect::Nothing,
            },
            Msg::Updated(data) => match self.phase {
                Phase::Fetching => {
                    self.server_data = data;
                    self.phase = Phase::Ready;
                    Effect::ArmTimer { delay_ms: REFRESH_INTERVAL_MS }
                },
                _ => Effect::Nothing,
            },
            Msg::UpdateFailed => match self.phase {
                Phase::Fetching => {
                    self.phase = Phase::FetchFailed;
                    Effect::Nothing
                },
                _ => Effect::Nothing,
            },
        }
    }

    /// Counts the servers of each region.
    pub fn region_count(&self) -> (counts: Counts)
        ensures
            counts@ == tally(labels(self.snapshot(), Grouping::ByRegion)),
            counts@.dom().finite(),
            sum_of_counts(counts@) == self.snapshot().len(),
    {
        count_by(&self.server_data, Grouping::ByRegion)
    }

    /// Counts the servers on each map.
    pub fn map_count(&self) -> (counts: Counts)
        ensures
            counts@ == tally(labels(self.snapshot(), Grouping::ByMap)),
            counts@.dom().finite(),
            sum_of_counts(counts@) == self.snapshot().len(),
    {
        count_by(&self.server_data, Grouping::ByMap)
    }

    /// Counts the servers of each gamemode, under the label of the gamemode.
    pub fn gamemode_count(&self) -> (counts: Counts)
        ensures
            counts@ == tally(labels(self.snapshot(), Grouping::ByGamemode)),
            counts@.dom().finite(),
            sum_of_counts(counts@) == self.snapshot().len(),
    {
        count_by(&self.server_data, Grouping::ByGamemode)
    }

    /// Sums the players on the servers, and the players waiting for them.
    pub fn player_count(&self) -> (totals: (u128, u128))
        ensures
            totals.0 == active_players(self.snapshot()),
            totals.1 == queued_players(self.snapshot()),
    {
        player_totals(&self.server_data)
    }

    /// Computes what is shown of the current snapshot.
    pub fn view(&self) -> (summary: Summary)
        ensures
            summary.players == active_players(self.snapshot()),
            summary.queued_players == queued_players(self.snapshot()),
            is_ranking(
                entry_views(summary.maps@),
                tally(labels(self.snapshot(), Grouping::ByMap)),
            ),
            is_ranking(
                entry_views(summary.gamemodes@),
                tally(labels(self.snapshot(), Grouping::ByGamemode)),
            ),
            is_ranking(
                entry_views(summary.regions@),
                tally(labels(self.snapshot(), Grouping::ByRegion)),
            ),
    {
        let maps = self.map_count().ranked();
        let gamemodes = self.gamemode_count().ranked();
        let regions = self.region_count().ranked();
        let totals = self.player_count();
        Summary { players: totals.0, queued_players: totals.1, maps, gamemodes, regions }
    }

    /// The records of the snapshot.
    pub fn server_data(&self) -> (records: &Vec<ServerRecord>)
        ensures
            views(records@) == self.snapshot(),
    {
        &self.server_data
    }

    /// The phase the refresh cycle is in.
    pub fn phase(&self) -> (phase: Phase)
        ensures
            phase == self.state().phase,
    {
        self.phase
    }
}

} // verus!
