use std::collections::HashSet;
use wc3bot::api::Game;
use wc3bot::db::{ActiveSub, Sub, HF_OFF, HF_WHITELIST, KIND_HOST, KIND_MAP};
use wc3bot::loc::Lang;
use wc3bot::poller::{notification_targets, reset_seen, take_new_games, Candidate, TrackedGame, Tracker};

fn game(id: i64, map: &str, host: &str, created: i64) -> Game {
    Game {
        id,
        name: "Game".to_string(),
        host: host.to_string(),
        map: map.to_string(),
        server: "eu".to_string(),
        slots_taken: 2,
        slots_total: 10,
        created,
    }
}

fn candidate(chat_id: i64, kind: &str, pattern: &str, window_open: bool) -> Candidate {
    Candidate {
        active: ActiveSub {
            chat_id,
            sub: Sub {
                id: chat_id * 10,
                chat_id,
                kind: kind.to_string(),
                pattern: pattern.to_string(),
                enabled: true,
                host_filter: HF_OFF.to_string(),
            },
        },
        muted: false,
        filter_mode: HF_OFF.to_string(),
        filter_hosts: Vec::new(),
        window_open,
    }
}

fn entry(chat_id: i64, message_id: i32, g: Game) -> TrackedGame {
    TrackedGame {
        chat_id,
        message_id,
        game: g,
        lang: Lang::En,
        sub_kind: "map".to_string(),
        sub_pattern: "pudge".to_string(),
    }
}

#[test]
fn new_games_are_reported_once() {
    let mut seen: HashSet<i64> = HashSet::new();
    seen.insert(1);
    let games = vec![game(1, "a", "h", 0), game(2, "b", "h", 0), game(2, "b", "h", 0), game(3, "c", "h", 0)];
    assert_eq!(take_new_games(&mut seen, &games), vec![1, 3]);
    assert!(seen.contains(&2) && seen.contains(&3));
    assert!(take_new_games(&mut seen, &games).is_empty());
}

#[test]
fn reset_keeps_only_current_ids() {
    let mut seen: HashSet<i64> = (0..10).collect();
    reset_seen(&mut seen, &[game(42, "a", "h", 0)]);
    assert_eq!(seen.len(), 1);
    assert!(seen.contains(&42));
}

#[test]
fn targets_respect_window_and_subscription() {
    let g = game(5, "Pudge Wars", "HellWolf#31976", 0);
    let mut filtered = candidate(4, KIND_MAP, "pudge", true);
    filtered.filter_mode = HF_WHITELIST.to_string();
    filtered.filter_hosts = vec!["Someone".to_string()];
    let mut muted = candidate(5, KIND_MAP, "pudge", true);
    muted.muted = true;
    let cands = vec![
        candidate(1, KIND_MAP, "pudge", true),
        candidate(2, KIND_MAP, "pudge", false),
        candidate(3, KIND_HOST, "hellwolf", true),
        filtered,
        muted,
        candidate(6, KIND_MAP, "dota", true),
    ];
    assert_eq!(notification_targets(&g, &cands), vec![0, 2]);
}

#[test]
fn tracker_drops_deleted_messages() {
    let mut t = Tracker::new();
    t.track(entry(1, 10, game(5, "a", "h", 0)));
    t.track(entry(2, 20, game(5, "a", "h", 0)));
    t.track(entry(1, 11, game(6, "a", "h", 0)));
    assert!(t.is_tracked(5));
    t.drop_deleted(&vec![(1, 10), (9, 9)]);
    let ids: Vec<(i64, i32)> = t.entries.iter().map(|e| (e.chat_id, e.message_id)).collect();
    assert_eq!(ids, vec![(2, 20), (1, 11)]);
    assert!(!t.is_tracked(7));
}

#[test]
fn sweep_refreshes_live_lobbies_and_finishes_gone_ones() {
    let mut t = Tracker::new();
    t.track(entry(1, 10, game(5, "Pudge", "h", 1_000)));
    t.track(entry(2, 20, game(6, "Dota", "h", 1_100)));
    t.track(entry(3, 30, game(6, "Dota", "h", 1_200)));
    let mut now5 = game(5, "Pudge", "h", 1_000);
    now5.slots_taken = 7;
    let edits = t.sweep(&[now5], 1_125);
    assert_eq!(edits.len(), 3);
    assert!(!edits[0].finished);
    assert_eq!(edits[0].game.slots_taken, 7);
    assert!(edits[0].text.ends_with("⏱ Created: 2m05s ago"));
    assert!(edits[0].text.contains("👥 Players: 7/10"));
    assert!(edits[1].finished && edits[2].finished);
    // the wait counts from the lobby of the first message that followed it
    assert!(edits[1].text.ends_with("✅ Started: after 25s"));
    assert!(edits[2].text.ends_with("✅ Started: after 25s"));
    assert_eq!((edits[2].chat_id, edits[2].message_id), (3, 30));
    assert_eq!(t.entries.len(), 1);
    assert_eq!(t.entries[0].game.slots_taken, 7);
    assert!(!t.is_tracked(6));
}

#[test]
fn sweep_now_uses_the_clock() {
    let mut t = Tracker::new();
    t.track(entry(1, 10, game(5, "Pudge", "h", 0)));
    let edits = t.sweep_now(&[]);
    assert_eq!(edits.len(), 1);
    assert!(edits[0].finished);
    assert!(t.entries.is_empty());
}

#[test]
fn a_run_announces_each_lobby_once() {
    let mut seen: HashSet<i64> = HashSet::new();
    let _ = take_new_games(&mut seen, &[game(1, "a", "h", 0)]);
    let lists = vec![
        vec![game(1, "a", "h", 0), game(2, "b", "h", 0)],
        vec![game(2, "b", "h", 0), game(3, "c", "h", 0)],
        vec![game(1, "a", "h", 0), game(3, "c", "h", 0), game(4, "d", "h", 0)],
    ];
    let mut announced: Vec<i64> = Vec::new();
    for l in &lists {
        for i in take_new_games(&mut seen, l) {
            announced.push(l[i].id);
        }
    }
    assert_eq!(announced, vec![2, 3, 4]);
}
