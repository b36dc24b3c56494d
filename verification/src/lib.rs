//! Aggregation and refresh logic for a live view of game-server statistics.

pub mod aggregate;
pub mod app;
pub mod counts;
pub mod gamemode;
pub mod order;
pub mod ranking;
pub mod record;
pub mod refresh;
pub mod tally;

pub use aggregate::Grouping;
pub use app::{App, Msg, Summary};
pub use counts::Counts;
pub use gamemode::Gamemode;
pub use record::{RecordView, ServerRecord};
pub use refresh::{Effect, Event, Phase, State, REFRESH_INTERVAL_MS};
