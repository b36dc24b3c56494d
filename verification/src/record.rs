//! The record that describes one game server.

use vstd::prelude::*;
use crate::gamemode::Gamemode;

verus! {

/// What a [`ServerRecord`] holds, as mathematical values.
pub struct RecordView {
    pub region: Seq<char>,
    pub map: Seq<char>,
    pub gamemode: Gamemode,
    pub player_count: nat,
    pub queued_player_count: nat,
}

/// One game server as of the last fetch. A record is never changed after it
/// was made, and its region is never empty.
#[derive(Debug)]
pub struct ServerRecord {
    region: String,
    map: String,
    gamemode: Gamemode,
    player_count: usize,
    queued_player_count: usize,
}

impl View for ServerRecord {
    type V = RecordView;

    closed spec fn view(&self) -> RecordView {
        RecordView {
            region: self.region@,
            map: self.map@,
            gamemode: self.gamemode,
            player_count: self.player_count as nat,
            queued_player_count: self.queued_player_count as nat,
        }
    }
}

impl ServerRecord {
    #[verifier::type_invariant]
    spec fn region_is_named(self) -> bool {
        self.region@.len() > 0
    }

    /// Makes a record. A record without a region is malformed and refused.
    pub fn new(
        region: String,
        map: String,
        gamemode: Gamemode,
        player_count: usize,
        queued_player_count: usize,
    ) -> (record: Option<ServerRecord>)
        ensures
            record is Some <==> region@.len() > 0,
            record matches Some(r) ==> r@ == (RecordView {
                region: region@,
                map: map@,
                gamemode,
                player_count: player_count as nat,
                queued_player_count: queued_player_count as nat,
            }),
    {
        if region.as_str().is_empty() {
            None
        } else {
            Some(ServerRecord { region, map, gamemode, player_count, queued_player_count })
        }
    }

    /// The region the server stands in.
    pub fn region(&self) -> (region: &String)
        ensures
            region@ == self@.region,
            region@.len() > 0,
    {
        proof {
            use_type_invariant(self);
        }
        &self.region
    }

    /// The map the server has loaded.
    pub fn map(&self) -> (map: &String)
        ensures
            map@ == self@.map,
    {
        &self.map
    }

    /// The gamemode the server runs.
    pub fn gamemode(&self) -> (gamemode: Gamemode)
        ensures
            gamemode == self@.gamemode,
    {
        self.gamemode
    }

    /// The number of players on the server.
    pub fn player_count(&self) -> (count: usize)
        ensures
            count == self@.player_count,
    {
        self.player_count
    }

    /// The number of players waiting to join the server.
    pub fn queued_player_count(&self) -> (count: usize)
        ensures
            count == self@.queued_player_count,
    {
        self.queued_player_count
    }
}

impl Clone for ServerRecord {
    fn clone(&self) -> (copy: Self)
        ensures
            copy@ == self@,
    {
        proof {
            use_type_invariant(self);
        }
        ServerRecord {
            region: self.region.clone(),
            map: self.map.clone(),
            gamemode: self.gamemode,
            player_count: self.player_count,
            queued_player_count: self.queued_player_count,
        }
    }
}

/// The mathematical values of a list of records.
pub open spec fn views(records: Seq<ServerRecord>) -> Seq<RecordView> {
    Seq::new(records.len(), |i: int| records[i]@)
}

} // verus!
