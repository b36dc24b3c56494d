use battlebit_stats::{Gamemode, ServerRecord};

#[test]
fn a_record_holds_what_it_was_made_of() {
    let record =
        ServerRecord::new("Europe".to_string(), "Wakistan".to_string(), Gamemode::Domination, 120, 4)
            .expect("the region is not empty");
    assert_eq!(record.region(), "Europe");
    assert_eq!(record.map(), "Wakistan");
    assert_eq!(record.gamemode(), Gamemode::Domination);
    assert_eq!(record.player_count(), 120);
    assert_eq!(record.queued_player_count(), 4);
}

#[test]
fn a_record_without_a_region_is_refused() {
    assert!(ServerRecord::new(String::new(), "Wakistan".to_string(), Gamemode::Rush, 1, 0).is_none());
}

#[test]
fn a_record_may_have_an_empty_map_and_no_players() {
    let record = ServerRecord::new("Asia".to_string(), String::new(), Gamemode::Unknown, 0, 0)
        .expect("the region is not empty");
    assert_eq!(record.map(), "");
    assert_eq!(record.player_count(), 0);
}

#[test]
fn a_copy_of_a_record_holds_the_same() {
    let record = ServerRecord::new("Japan".to_string(), "Lonovo".to_string(), Gamemode::Frontline, 64, 65_535)
        .expect("the region is not empty");
    let copy = record.clone();
    assert_eq!(copy.region(), record.region());
    assert_eq!(copy.map(), record.map());
    assert_eq!(copy.gamemode(), record.gamemode());
    assert_eq!(copy.player_count(), 64);
    assert_eq!(copy.queued_player_count(), 65_535);
}
