use std::collections::HashMap;
use wc3bot::api::Game;
use wc3bot::db::UserSettings;
use wc3bot::watcher::{parse_identity, should_show_watch_button, tick, WatchEvent, WatchState, WatchedGame};

fn game(id: i64, host: &str, taken: i32, total: i32) -> Game {
    Game {
        id,
        name: "Some game".to_string(),
        host: host.to_string(),
        map: "TestMap.w3x".to_string(),
        server: "eu".to_string(),
        slots_taken: taken,
        slots_total: total,
        created: 0,
    }
}

fn settings_with(user_id: i64, identity: Option<&str>, enabled: bool) -> UserSettings {
    UserSettings {
        user_id,
        watched_identity: identity.map(String::from),
        monitoring_enabled: enabled,
    }
}

// --- parse_identity ---

#[test]
fn parse_identity_valid() {
    let (n, i) = parse_identity("Rutex#2561").unwrap();
    assert_eq!(n, "Rutex");
    assert_eq!(i, 2561);
}

#[test]
fn parse_identity_with_underscored_name() {
    let (n, i) = parse_identity("Hell_Wolf#31976").unwrap();
    assert_eq!(n, "Hell_Wolf");
    assert_eq!(i, 31976);
}

#[test]
fn parse_identity_rejects_no_hash() {
    assert!(parse_identity("Rutex2561").is_err());
}

#[test]
fn parse_identity_rejects_empty_name() {
    assert!(parse_identity("#12345").is_err());
}

#[test]
fn parse_identity_rejects_empty_id() {
    assert!(parse_identity("Rutex#").is_err());
}

#[test]
fn parse_identity_rejects_non_digit() {
    assert!(parse_identity("Rutex#abcd").is_err());
    assert!(parse_identity("Rutex#1234a").is_err());
}

#[test]
fn parse_identity_rejects_zero_id() {
    assert!(parse_identity("Rutex#0").is_err());
}

#[test]
fn parse_identity_rejects_too_long_id() {
    assert!(parse_identity("Rutex#12345678901").is_err());
}

#[test]
fn parse_identity_rejects_double_hash() {
    assert!(parse_identity("X#Y#1").is_err());
}

// --- should_show_watch_button ---

#[test]
fn watch_button_shown_when_no_identity() {
    let s = settings_with(1, None, false);
    let g = game(1, "Rutex#2561", 2, 10);
    assert!(should_show_watch_button(&s, &g));
}

#[test]
fn watch_button_hidden_when_nickname_matches() {
    let s = settings_with(1, Some("Rutex#2561"), true);
    let g = game(1, "Rutex#2561", 2, 10);
    assert!(!should_show_watch_button(&s, &g));
}

#[test]
fn watch_button_shown_when_nickname_disabled() {
    let s = settings_with(1, Some("Rutex#2561"), false);
    let g = game(1, "Rutex#2561", 2, 10);
    assert!(should_show_watch_button(&s, &g));
}

#[test]
fn watch_button_shown_when_host_does_not_match() {
    let s = settings_with(1, Some("Rutex#2561"), true);
    let g = game(1, "Other#2561", 2, 10);
    assert!(should_show_watch_button(&s, &g));
}

#[test]
fn watch_button_match_is_case_insensitive() {
    let s = settings_with(1, Some("Rutex#2561"), true);
    let g = game(1, "rutex#2561", 2, 10);
    assert!(!should_show_watch_button(&s, &g));
}

// --- tick: first sight ---

#[test]
fn tick_first_sight_explicit_emits_started() {
    let mut state = WatchState::default();
    let user = state.user_mut(1);
    user.explicit_games.insert(100, WatchedGame { id: 100, map: "TestMap.w3x".into(), host: "Host#1".into(), taken: 0, total: 0 });
    let games = vec![game(100, "Host#1", 2, 10)];
    let mut settings = HashMap::new();
    settings.insert(1, settings_with(1, None, false));
    let events = tick(&mut state, &games, &settings);
    assert_eq!(events.len(), 1);
    match &events[0].1 {
        WatchEvent::Started { nickname, .. } => assert!(!*nickname),
        _ => panic!("expected Started"),
    }
}

#[test]
fn tick_first_sight_nickname_emits_started() {
    let mut state = WatchState::default();
    let games = vec![game(100, "Rutex#2561", 2, 10)];
    let mut settings = HashMap::new();
    settings.insert(1, settings_with(1, Some("Rutex#2561"), true));
    let events = tick(&mut state, &games, &settings);
    assert_eq!(events.len(), 1);
    match &events[0].1 {
        WatchEvent::Started { nickname, .. } => assert!(*nickname),
        _ => panic!("expected Started"),
    }
}

#[test]
fn tick_no_interest_no_events() {
    let mut state = WatchState::default();
    let games = vec![game(100, "Rutex#2561", 2, 10)];
    let mut settings = HashMap::new();
    settings.insert(1, settings_with(1, Some("Rutex#2561"), false));
    let events = tick(&mut state, &games, &settings);
    assert!(events.is_empty());
}

// --- tick: deltas ---

#[test]
fn tick_aggregates_positive_delta() {
    let mut state = WatchState::default();
    let user = state.user_mut(1);
    user.explicit_games.insert(100, WatchedGame { id: 100, map: "TestMap.w3x".into(), host: "Host#1".into(), taken: 0, total: 0 });
    let games1 = vec![game(100, "Host#1", 2, 10)];
    let mut settings = HashMap::new();
    settings.insert(1, settings_with(1, None, false));
    let _ = tick(&mut state, &games1, &settings);

    let games2 = vec![game(100, "Host#1", 5, 10)];
    let events = tick(&mut state, &games2, &settings);
    assert_eq!(events.len(), 1);
    match &events[0].1 {
        WatchEvent::SlotsDelta { delta, .. } => assert_eq!(*delta, 3),
        _ => panic!("expected SlotsDelta"),
    }
}

#[test]
fn tick_aggregates_negative_delta() {
    let mut state = WatchState::default();
    let user = state.user_mut(1);
    user.explicit_games.insert(100, WatchedGame { id: 100, map: "TestMap.w3x".into(), host: "Host#1".into(), taken: 0, total: 0 });
    let games1 = vec![game(100, "Host#1", 5, 10)];
    let mut settings = HashMap::new();
    settings.insert(1, settings_with(1, None, false));
    let _ = tick(&mut state, &games1, &settings);

    let games2 = vec![game(100, "Host#1", 3, 10)];
    let events = tick(&mut state, &games2, &settings);
    assert_eq!(events.len(), 1);
    match &events[0].1 {
        WatchEvent::SlotsDelta { delta, .. } => assert_eq!(*delta, -2),
        _ => panic!("expected SlotsDelta"),
    }
}

#[test]
fn tick_no_event_when_zero_delta() {
    let mut state = WatchState::default();
    let user = state.user_mut(1);
    user.explicit_games.insert(100, WatchedGame { id: 100, map: "TestMap.w3x".into(), host: "Host#1".into(), taken: 0, total: 0 });
    let games1 = vec![game(100, "Host#1", 5, 10)];
    let mut settings = HashMap::new();
    settings.insert(1, settings_with(1, None, false));
    let _ = tick(&mut state, &games1, &settings);

    let games2 = vec![game(100, "Host#1", 5, 10)];
    let events = tick(&mut state, &games2, &settings);
    assert!(events.is_empty());
}

// --- tick: filled ---

#[test]
fn tick_filled_sends_once() {
    let mut state = WatchState::default();
    let user = state.user_mut(1);
    user.explicit_games.insert(100, WatchedGame { id: 100, map: "TestMap.w3x".into(), host: "Host#1".into(), taken: 0, total: 0 });
    let games1 = vec![game(100, "Host#1", 9, 10)];
    let mut settings = HashMap::new();
    settings.insert(1, settings_with(1, None, false));
    let e1 = tick(&mut state, &games1, &settings);
    assert_eq!(e1.len(), 1);
    assert!(matches!(e1[0].1, WatchEvent::Started { .. }));

    let games2 = vec![game(100, "Host#1", 10, 10)];
    let e2 = tick(&mut state, &games2, &settings);
    assert_eq!(e2.len(), 2);
    assert!(matches!(e2[0].1, WatchEvent::SlotsDelta { delta: 1, .. }));
    assert!(matches!(e2[1].1, WatchEvent::Filled { .. }));

    let games3 = vec![game(100, "Host#1", 10, 10)];
    let e3 = tick(&mut state, &games3, &settings);
    assert!(e3.is_empty());
}

#[test]
fn tick_filled_emits_again_after_dip() {
    let mut state = WatchState::default();
    let user = state.user_mut(1);
    user.explicit_games.insert(100, WatchedGame { id: 100, map: "TestMap.w3x".into(), host: "Host#1".into(), taken: 0, total: 0 });
    let mut settings = HashMap::new();
    settings.insert(1, settings_with(1, None, false));

    let _ = tick(&mut state, &[game(100, "Host#1", 9, 10)], &settings);
    let _ = tick(&mut state, &[game(100, "Host#1", 10, 10)], &settings);
    let _ = tick(&mut state, &[game(100, "Host#1", 8, 10)], &settings);
    let e = tick(&mut state, &[game(100, "Host#1", 10, 10)], &settings);
    // SlotsDelta(+2) + Filled
    assert_eq!(e.len(), 2);
    assert!(matches!(e[1].1, WatchEvent::Filled { .. }));
}

#[test]
fn tick_first_sight_full_emits_filled() {
    let mut state = WatchState::default();
    let user = state.user_mut(1);
    user.explicit_games.insert(100, WatchedGame { id: 100, map: "TestMap.w3x".into(), host: "Host#1".into(), taken: 0, total: 0 });
    let games = vec![game(100, "Host#1", 10, 10)];
    let mut settings = HashMap::new();
    settings.insert(1, settings_with(1, None, false));
    let e = tick(&mut state, &games, &settings);
    // Started + Filled
    assert_eq!(e.len(), 2);
    assert!(matches!(e[0].1, WatchEvent::Started { .. }));
    assert!(matches!(e[1].1, WatchEvent::Filled { .. }));
}

// --- tick: cleanup ---

#[test]
fn tick_clears_state_when_game_removed() {
    let mut state = WatchState::default();
    let user = state.user_mut(1);
    user.explicit_games.insert(100, WatchedGame { id: 100, map: "TestMap.w3x".into(), host: "Host#1".into(), taken: 0, total: 0 });
    let games1 = vec![game(100, "Host#1", 2, 10)];
    let mut settings = HashMap::new();
    settings.insert(1, settings_with(1, None, false));
    let _ = tick(&mut state, &games1, &settings);
    assert!(state.users[&1].last_taken.contains_key(&100));

    let games2: Vec<Game> = vec![];
    let _ = tick(&mut state, &games2, &settings);
    assert!(!state.users[&1].explicit_games.contains_key(&100));
    assert!(!state.users[&1].last_taken.contains_key(&100));
}

// --- tick: explicit + nickname ---

#[test]
fn tick_explicit_takes_priority_over_nickname() {
    let mut state = WatchState::default();
    let user = state.user_mut(1);
    user.explicit_games.insert(100, WatchedGame { id: 100, map: "TestMap.w3x".into(), host: "Host#1".into(), taken: 0, total: 0 });
    // Game.hosted by Rutex, user has both explicit AND nickname match
    let games = vec![game(100, "Rutex#2561", 2, 10)];
    let mut settings = HashMap::new();
    settings.insert(1, settings_with(1, Some("Rutex#2561"), true));
    let e = tick(&mut state, &games, &settings);
    assert_eq!(e.len(), 1);
    match &e[0].1 {
        WatchEvent::Started { nickname, .. } => assert!(!*nickname),
        _ => panic!("expected Started"),
    }
}

#[test]
fn tick_nickname_does_not_match_case_sensitive() {
    let mut state = WatchState::default();
    let games = vec![game(100, "RUTEX#2561", 2, 10)];
    let mut settings = HashMap::new();
    settings.insert(1, settings_with(1, Some("Rutex#2561"), true));
    let e = tick(&mut state, &games, &settings);
    assert_eq!(e.len(), 1);
}

#[test]
fn tick_user_uninterested_clears_stale_state() {
    let mut state = WatchState::default();
    let user = state.user_mut(1);
    user.explicit_games.insert(100, WatchedGame { id: 100, map: "TestMap.w3x".into(), host: "Host#1".into(), taken: 0, total: 0 });
    let games1 = vec![game(100, "Host#1", 2, 10)];
    let mut settings = HashMap::new();
    settings.insert(1, settings_with(1, None, false));
    let _ = tick(&mut state, &games1, &settings);
    assert!(state.users[&1].last_taken.contains_key(&100));

    state.users.get_mut(&1).unwrap().explicit_games.remove(&100);
    let games2 = vec![game(100, "Host#1", 3, 10)];
    let e = tick(&mut state, &games2, &settings);
    assert!(e.is_empty());
    assert!(!state.users[&1].last_taken.contains_key(&100));
}

#[test]
fn tick_multiple_users_independent() {
    let mut state = WatchState::default();
    state.user_mut(1).explicit_games.insert(100, WatchedGame { id: 100, map: "TestMap.w3x".into(), host: "Host#1".into(), taken: 0, total: 0 });
    let games = vec![game(100, "Host#1", 2, 10)];
    let mut settings = HashMap::new();
    settings.insert(1, settings_with(1, None, false));
    settings.insert(2, settings_with(2, None, false));
    let e = tick(&mut state, &games, &settings);
    assert_eq!(e.len(), 1);
    assert_eq!(e[0].0, 1);
}

#[test]
fn tick_nickname_user_discovers_game() {
    let mut state = WatchState::default();
    let games = vec![game(100, "rutex#2561", 2, 10)];
    let mut settings = HashMap::new();
    settings.insert(1, settings_with(1, Some("Rutex#2561"), true));
    let e = tick(&mut state, &games, &settings);
    assert_eq!(e.len(), 1);
}

#[test]
fn tick_first_sight_does_not_emit_filled_when_zero_taken() {
    let mut state = WatchState::default();
    let user = state.user_mut(1);
    user.explicit_games.insert(100, WatchedGame { id: 100, map: "TestMap.w3x".into(), host: "Host#1".into(), taken: 0, total: 0 });
    let games = vec![game(100, "Host#1", 0, 0)];
    let mut settings = HashMap::new();
    settings.insert(1, settings_with(1, None, false));
    let e = tick(&mut state, &games, &settings);
    assert_eq!(e.len(), 1);
    assert!(matches!(e[0].1, WatchEvent::Started { .. }));
}

#[test]
fn identity_matches_host_ignoring_ascii_case() {
    assert!(wc3bot::watcher::host_matches("Rutex", 2561, "rUTEX#2561"));
    assert!(!wc3bot::watcher::host_matches("Rutex", 2561, "Rutex#25610"));
    assert!(!wc3bot::watcher::host_matches("Rutex", 2561, "Rutex 2561"));
}

#[test]
fn follow_by_identity_needs_monitoring_and_a_valid_identity() {
    let g = game(1, "Rutex#2561", 2, 10);
    assert!(wc3bot::watcher::follows_by_identity(&settings_with(1, Some("Rutex#2561"), true), &g));
    assert!(!wc3bot::watcher::follows_by_identity(&settings_with(1, Some("Rutex#2561"), false), &g));
    assert!(!wc3bot::watcher::follows_by_identity(&settings_with(1, Some("Rutex"), true), &g));
    assert!(!wc3bot::watcher::follows_by_identity(&settings_with(1, None, true), &g));
}

#[test]
fn tick_accepts_unrelated_counts_far_apart() {
    let mut state = WatchState::default();
    state.user_mut(1).explicit_games.insert(100, WatchedGame { id: 100, map: "M".into(), host: "H".into(), taken: 0, total: 0 });
    let mut settings = HashMap::new();
    settings.insert(1, settings_with(1, None, false));
    let games = vec![game(100, "H", i32::MAX, i32::MAX), game(200, "X", i32::MIN, 10)];
    let e = tick(&mut state, &games, &settings);
    assert_eq!(e.len(), 2);
    assert!(matches!(e[1].1, WatchEvent::Filled { .. }));
}

#[test]
fn tick_keeps_tables_to_followed_current_lobbies() {
    let mut state = WatchState::default();
    state.user_mut(1).explicit_games.insert(100, WatchedGame { id: 100, map: "M".into(), host: "H".into(), taken: 0, total: 0 });
    state.user_mut(1).explicit_games.insert(300, WatchedGame { id: 300, map: "M".into(), host: "H".into(), taken: 0, total: 0 });
    let mut settings = HashMap::new();
    settings.insert(1, settings_with(1, Some("Rutex#2561"), true));
    let games = vec![game(100, "H", 3, 10), game(200, "rutex#2561", 4, 8), game(400, "Other", 1, 2)];
    let _ = tick(&mut state, &games, &settings);
    let u = &state.users[&1];
    let mut keys: Vec<i64> = u.last_taken.keys().copied().collect();
    keys.sort();
    assert_eq!(keys, vec![100, 200]);
    let mut totals: Vec<i64> = u.last_total.keys().copied().collect();
    totals.sort();
    assert_eq!(totals, keys);
    assert_eq!((u.last_taken[&200], u.last_total[&200]), (4, 8));
    assert_eq!(u.explicit_games.len(), 1);
    assert_eq!(u.explicit_games[&100].taken, 3);
}
