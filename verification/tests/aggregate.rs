use battlebit_stats::{App, Counts, Effect, Gamemode, Grouping, Msg, ServerRecord};
use battlebit_stats::aggregate::{count_by, player_totals, record_label};

fn record(region: &str, map: &str, gamemode: Gamemode, players: usize, queued: usize) -> ServerRecord {
    ServerRecord::new(region.to_string(), map.to_string(), gamemode, players, queued)
        .expect("the region is not empty")
}

fn example() -> Vec<ServerRecord> {
    vec![
        record("EU", "Valley", Gamemode::TeamDeathmatch, 10, 2),
        record("EU", "Valley", Gamemode::CaptureTheFlag, 5, 0),
        record("NA", "Docks", Gamemode::TeamDeathmatch, 8, 1),
    ]
}

fn app_showing(records: Vec<ServerRecord>) -> App {
    let (mut app, start) = App::create();
    assert_eq!(app.update(start), Effect::Fetch);
    app.update(Msg::Updated(records));
    app
}

fn count(counts: &Counts, label: &str) -> usize {
    counts.get(&label.to_string())
}

fn sum(counts: &Counts) -> usize {
    counts.ranked().iter().map(|entry| entry.1).sum()
}

#[test]
fn example_region_counts() {
    let counts = app_showing(example()).region_count();
    assert_eq!(count(&counts, "EU"), 2);
    assert_eq!(count(&counts, "NA"), 1);
    assert_eq!(counts.ranked().len(), 2);
}

#[test]
fn example_map_counts() {
    let counts = app_showing(example()).map_count();
    assert_eq!(count(&counts, "Valley"), 2);
    assert_eq!(count(&counts, "Docks"), 1);
    assert_eq!(counts.ranked().len(), 2);
}

#[test]
fn example_gamemode_counts() {
    let counts = app_showing(example()).gamemode_count();
    assert_eq!(count(&counts, "Team Deathmatch"), 2);
    assert_eq!(count(&counts, "Capture The Flag"), 1);
    assert_eq!(count(&counts, "TeamDeathmatch"), 0);
    assert_eq!(counts.ranked().len(), 2);
}

#[test]
fn example_player_totals() {
    assert_eq!(app_showing(example()).player_count(), (23, 3));
}

#[test]
fn empty_snapshot_has_empty_aggregates() {
    let app = app_showing(Vec::new());
    assert!(app.region_count().ranked().is_empty());
    assert!(app.map_count().ranked().is_empty());
    assert!(app.gamemode_count().ranked().is_empty());
    assert_eq!(app.player_count(), (0, 0));
    assert_eq!(count(&app.region_count(), "EU"), 0);
}

#[test]
fn counts_sum_to_the_number_of_records() {
    let mut records = example();
    records.push(record("Asia", "Valley", Gamemode::Rush, 0, 0));
    records.push(record("EU", "Frugis", Gamemode::Unknown, 1, 1));
    let app = app_showing(records);
    assert_eq!(sum(&app.region_count()), 5);
    assert_eq!(sum(&app.map_count()), 5);
    assert_eq!(sum(&app.gamemode_count()), 5);
}

#[test]
fn player_totals_are_additive() {
    let a = example();
    let b = vec![
        record("Asia", "Valley", Gamemode::Rush, 254, 65_535),
        record("EU", "Frugis", Gamemode::Unknown, 1, 0),
    ];
    let mut both = a.clone();
    both.extend(b.iter().cloned());
    let (active_a, queued_a) = player_totals(&a);
    let (active_b, queued_b) = player_totals(&b);
    assert_eq!((active_b, queued_b), (255, 65_535));
    assert_eq!(player_totals(&both), (active_a + active_b, queued_a + queued_b));
    assert_eq!(player_totals(&both), (278, 65_538));
}

#[test]
fn player_totals_do_not_overflow() {
    let records = vec![
        record("EU", "Valley", Gamemode::Rush, usize::MAX, usize::MAX),
        record("EU", "Valley", Gamemode::Rush, usize::MAX, 1),
    ];
    let max = usize::MAX as u128;
    assert_eq!(player_totals(&records), (2 * max, max + 1));
}

#[test]
fn aggregates_ignore_the_order_of_the_records() {
    let forward = example();
    let mut backward = example();
    backward.reverse();
    for by in [Grouping::ByRegion, Grouping::ByMap, Grouping::ByGamemode] {
        let a = count_by(&forward, by);
        let b = count_by(&backward, by);
        assert_eq!(a.ranked(), b.ranked());
        for (label, count) in a.ranked() {
            assert_eq!(b.get(&label), count);
        }
    }
    assert_eq!(player_totals(&forward), player_totals(&backward));
}

#[test]
fn a_record_is_labelled_by_the_grouping() {
    let server = record("EU", "Valley", Gamemode::FreeForAll, 1, 2);
    assert_eq!(record_label(&server, Grouping::ByRegion), "EU");
    assert_eq!(record_label(&server, Grouping::ByMap), "Valley");
    assert_eq!(record_label(&server, Grouping::ByGamemode), "Free For All");
}

#[test]
fn counts_record_and_get() {
    let counts = Counts::new();
    assert_eq!(count(&counts, "a"), 0);
    let counts = counts.record("a".to_string());
    let counts = counts.record("b".to_string());
    let counts = counts.record("a".to_string());
    assert_eq!(count(&counts, "a"), 2);
    assert_eq!(count(&counts, "b"), 1);
    assert_eq!(count(&counts, "c"), 0);
    assert_eq!(count(&counts, ""), 0);
}

#[test]
fn counts_know_how_many_labels_they_hold() {
    let counts = Counts::new();
    assert!(counts.is_empty());
    assert_eq!(counts.len(), 0);
    let counts = counts.record("a".to_string());
    assert!(!counts.is_empty());
    assert_eq!(counts.len(), 1);
    let counts = counts.record("a".to_string()).record("b".to_string());
    assert_eq!(counts.len(), 2);
    assert_eq!(app_showing(example()).gamemode_count().len(), 2);
}
