use battlebit_stats::{App, Effect, Gamemode, Msg, Phase, ServerRecord, REFRESH_INTERVAL_MS};

fn server(region: &str, players: usize) -> ServerRecord {
    ServerRecord::new(region.to_string(), "Valley".to_string(), Gamemode::Conquest, players, 0)
        .expect("the region is not empty")
}

fn regions(app: &App) -> Vec<String> {
    app.server_data().iter().map(|record| record.region().clone()).collect()
}

#[test]
fn the_application_starts_idle_and_asks_for_a_fetch() {
    let (app, start) = App::create();
    assert_eq!(app.phase(), Phase::Idle);
    assert!(app.server_data().is_empty());
    assert!(matches!(start, Msg::UpdateData));
}

#[test]
fn the_interval_is_one_minute() {
    assert_eq!(REFRESH_INTERVAL_MS, 60_000);
}

#[test]
fn a_successful_fetch_replaces_the_snapshot_and_arms_the_timer() {
    let (mut app, start) = App::create();
    let effect = app.update(start);
    assert_eq!(effect, Effect::Fetch);
    assert!(!effect.requests_render());
    assert_eq!(app.phase(), Phase::Fetching);

    let effect = app.update(Msg::Updated(vec![server("EU", 1), server("NA", 2), server("EU", 3)]));
    assert_eq!(effect, Effect::ArmTimer { delay_ms: 60_000 });
    assert!(effect.requests_render());
    assert_eq!(app.phase(), Phase::Ready);
    assert_eq!(app.server_data().len(), 3);
    assert_eq!(regions(&app), ["EU", "NA", "EU"]);
}

#[test]
fn the_timer_starts_one_new_fetch() {
    let (mut app, start) = App::create();
    app.update(start);
    app.update(Msg::Updated(vec![server("EU", 1)]));
    assert_eq!(app.update(Msg::UpdateData), Effect::Fetch);
    assert_eq!(app.phase(), Phase::Fetching);
    assert_eq!(app.server_data().len(), 1);
    assert_eq!(app.update(Msg::UpdateData), Effect::Nothing);
    assert_eq!(app.phase(), Phase::Fetching);
}

#[test]
fn a_second_fetch_replaces_the_whole_snapshot() {
    let (mut app, start) = App::create();
    app.update(start);
    app.update(Msg::Updated(vec![server("EU", 1), server("NA", 2)]));
    app.update(Msg::UpdateData);
    let effect = app.update(Msg::Updated(vec![server("Asia", 7)]));
    assert_eq!(effect, Effect::ArmTimer { delay_ms: REFRESH_INTERVAL_MS });
    assert_eq!(regions(&app), ["Asia"]);
    assert_eq!(app.player_count(), (7, 0));
}

#[test]
fn a_failed_fetch_keeps_the_snapshot_and_arms_no_timer() {
    let (mut app, start) = App::create();
    app.update(start);
    app.update(Msg::Updated(vec![server("EU", 1), server("NA", 2)]));
    app.update(Msg::UpdateData);
    let effect = app.update(Msg::UpdateFailed);
    assert_eq!(effect, Effect::Nothing);
    assert!(!effect.requests_render());
    assert_eq!(app.phase(), Phase::FetchFailed);
    assert_eq!(regions(&app), ["EU", "NA"]);
    assert_eq!(app.player_count(), (3, 0));
}

#[test]
fn a_failed_first_fetch_leaves_the_snapshot_empty() {
    let (mut app, start) = App::create();
    app.update(start);
    assert_eq!(app.update(Msg::UpdateFailed), Effect::Nothing);
    assert_eq!(app.phase(), Phase::FetchFailed);
    assert!(app.server_data().is_empty());
}

#[test]
fn after_a_failure_the_cycle_has_stopped() {
    let (mut app, start) = App::create();
    app.update(start);
    app.update(Msg::UpdateFailed);
    assert_eq!(app.update(Msg::UpdateData), Effect::Nothing);
    assert_eq!(app.update(Msg::Updated(vec![server("EU", 1)])), Effect::Nothing);
    assert_eq!(app.update(Msg::UpdateFailed), Effect::Nothing);
    assert_eq!(app.phase(), Phase::FetchFailed);
    assert!(app.server_data().is_empty());
}

#[test]
fn an_answer_that_no_fetch_asked_for_is_dropped() {
    let (mut app, _) = App::create();
    assert_eq!(app.update(Msg::Updated(vec![server("EU", 1)])), Effect::Nothing);
    assert_eq!(app.update(Msg::UpdateFailed), Effect::Nothing);
    assert_eq!(app.phase(), Phase::Idle);
    assert!(app.server_data().is_empty());

    app.update(Msg::UpdateData);
    app.update(Msg::Updated(vec![server("EU", 1)]));
    assert_eq!(app.update(Msg::Updated(vec![server("NA", 1)])), Effect::Nothing);
    assert_eq!(app.update(Msg::UpdateFailed), Effect::Nothing);
    assert_eq!(app.phase(), Phase::Ready);
    assert_eq!(regions(&app), ["EU"]);
}

#[test]
fn the_summary_shows_the_current_snapshot() {
    let (mut app, start) = App::create();
    app.update(start);
    let records = vec![
        ServerRecord::new("EU".into(), "Valley".into(), Gamemode::TeamDeathmatch, 10, 2).unwrap(),
        ServerRecord::new("EU".into(), "Valley".into(), Gamemode::CaptureTheFlag, 5, 0).unwrap(),
        ServerRecord::new("NA".into(), "Docks".into(), Gamemode::TeamDeathmatch, 8, 1).unwrap(),
    ];
    app.update(Msg::Updated(records));
    let summary = app.view();
    assert_eq!(summary.players, 23);
    assert_eq!(summary.queued_players, 3);
    assert_eq!(summary.maps, [("Valley".to_string(), 2), ("Docks".to_string(), 1)]);
    assert_eq!(summary.regions, [("EU".to_string(), 2), ("NA".to_string(), 1)]);
    assert_eq!(
        summary.gamemodes,
        [("Team Deathmatch".to_string(), 2), ("Capture The Flag".to_string(), 1)]
    );
}

#[test]
fn the_summary_of_nothing_is_empty() {
    let (app, _) = App::create();
    let summary = app.view();
    assert_eq!(summary.players, 0);
    assert_eq!(summary.queued_players, 0);
    assert!(summary.maps.is_empty());
    assert!(summary.regions.is_empty());
    assert!(summary.gamemodes.is_empty());
}
