use wc3bot::db::{
    host_filter_passes, mute_expired, next_host_filter_mode, notification_window_open,
    legacy_map_mutes, owns, quiet_hours_from_columns, should_notify, snooze_until, str_eq, timestamp_from_clock, QuietHours,
    Sub, HF_BLACKLIST, HF_OFF, HF_WHITELIST, KIND_HOST, KIND_MAP, KIND_NAME, SNOOZE_SECS,
};

fn sub(kind: &str, pattern: &str) -> Sub {
    Sub {
        id: 1,
        chat_id: 1,
        kind: kind.to_string(),
        pattern: pattern.to_string(),
        enabled: true,
        host_filter: HF_OFF.to_string(),
    }
}

fn hosts(list: &[&str]) -> Vec<String> {
    list.iter().map(|h| h.to_string()).collect()
}

fn notify(s: &Sub, muted: bool, mode: &str, hs: &[&str], map: &str, host: &str, name: &str) -> bool {
    should_notify(s, muted, mode, &hosts(hs), map, host, name)
}

#[test]
fn each_kind_matches_its_own_field() {
    let m = sub(KIND_MAP, "Pudge");
    assert!(notify(&m, false, HF_OFF, &[], "Pudge Wars", "Host", "Game"));
    assert!(!notify(&m, false, HF_OFF, &[], "DotA", "Pudge", "Pudge"));
    let h = sub(KIND_HOST, "HellWolf");
    assert!(notify(&h, false, HF_OFF, &[], "Map", "HellWolf#31976", "Game"));
    assert!(!notify(&h, false, HF_OFF, &[], "HellWolf", "Other", "HellWolf"));
    let n = sub(KIND_NAME, "fun");
    assert!(notify(&n, false, HF_OFF, &[], "Map", "Host", "Just for FUN"));
    assert!(!notify(&n, false, HF_OFF, &[], "fun", "fun", "serious"));
}

#[test]
fn matching_ignores_case_and_symbols() {
    let m = sub(KIND_MAP, "legion td");
    assert!(notify(&m, false, HF_OFF, &[], "Legion_TD_11.4b.w3x", "h", "g"));
    let m = sub(KIND_MAP, "PUDGE");
    assert!(notify(&m, false, HF_OFF, &[], "(10) pudge wars", "h", "g"));
}

#[test]
fn muted_selector_never_notifies() {
    let m = sub(KIND_MAP, "Pudge");
    assert!(!notify(&m, true, HF_OFF, &[], "Pudge Wars", "Host", "Game"));
}

#[test]
fn whitelist_and_blacklist_filter_hosts() {
    let m = sub(KIND_MAP, "Pudge");
    assert!(notify(&m, false, HF_WHITELIST, &["HellWolf"], "Pudge Wars", "HellWolf#31976", "G"));
    assert!(!notify(&m, false, HF_WHITELIST, &["HellWolf"], "Pudge Wars", "RandomGuy", "G"));
    assert!(!notify(&m, false, HF_BLACKLIST, &["HellWolf"], "Pudge Wars", "HellWolf#31976", "G"));
    assert!(notify(&m, false, HF_BLACKLIST, &["HellWolf"], "Pudge Wars", "RandomGuy", "G"));
    assert!(!notify(&m, false, HF_WHITELIST, &[], "Pudge Wars", "Anyone", "G"));
    assert!(notify(&m, false, HF_WHITELIST, &["Alice", "Bob"], "Pudge Wars", "bob#1", "G"));
}

#[test]
fn host_subs_ignore_the_host_filter() {
    let h = sub(KIND_HOST, "HellWolf");
    assert!(notify(&h, false, HF_WHITELIST, &[], "Map", "HellWolf#31976", "G"));
    assert!(notify(&h, false, HF_BLACKLIST, &["HellWolf"], "Map", "HellWolf#31976", "G"));
}

#[test]
fn name_subs_use_the_host_filter() {
    let n = sub(KIND_NAME, "fun");
    assert!(!notify(&n, false, HF_BLACKLIST, &["Bad"], "Map", "BadGuy", "fun game"));
    assert!(notify(&n, false, HF_BLACKLIST, &["Bad"], "Map", "Good", "fun game"));
}

#[test]
fn host_filter_modes() {
    assert!(host_filter_passes(HF_OFF, &hosts(&["x"]), "x"));
    assert!(host_filter_passes("unknown", &hosts(&[]), "x"));
    assert!(!host_filter_passes(HF_WHITELIST, &hosts(&[]), "x"));
    assert!(host_filter_passes(HF_WHITELIST, &hosts(&["X"]), "the x host"));
    assert!(!host_filter_passes(HF_BLACKLIST, &hosts(&["X"]), "the x host"));
}

#[test]
fn host_filter_mode_cycles() {
    assert_eq!(next_host_filter_mode(HF_OFF), HF_WHITELIST);
    assert_eq!(next_host_filter_mode(HF_WHITELIST), HF_BLACKLIST);
    assert_eq!(next_host_filter_mode(HF_BLACKLIST), HF_OFF);
    assert_eq!(next_host_filter_mode("garbage"), HF_OFF);
    let three = next_host_filter_mode(next_host_filter_mode(next_host_filter_mode(HF_WHITELIST)));
    assert_eq!(three, HF_WHITELIST);
}

#[test]
fn snooze_lasts_twelve_hours() {
    assert_eq!(SNOOZE_SECS, 12 * 60 * 60);
    assert_eq!(snooze_until(1_000), 1_000 + 43_200);
    assert!(!mute_expired(Some(snooze_until(1_000)), 1_000));
    assert!(mute_expired(Some(snooze_until(1_000)), 44_200));
    assert!(!mute_expired(None, i64::MAX));
    assert!(mute_expired(Some(1), 1));
}

#[test]
fn quiet_hours_need_all_three_columns() {
    let q = quiet_hours_from_columns(Some(180), Some(1380), Some(420)).unwrap();
    assert_eq!((q.tz_offset_min, q.start_min, q.end_min), (180, 1380, 420));
    assert!(quiet_hours_from_columns(None, Some(1), Some(2)).is_none());
    assert!(quiet_hours_from_columns(Some(0), None, Some(2)).is_none());
    assert!(quiet_hours_from_columns(Some(0), Some(1), None).is_none());
}

#[test]
fn notification_window_follows_quiet_hours() {
    // 2024-01-15 22:00 UTC
    let t = 1_705_356_000;
    assert!(notification_window_open(None, t));
    let msk = QuietHours { tz_offset_min: 180, start_min: 23 * 60, end_min: 7 * 60 };
    assert!(notification_window_open(Some(msk), t));
    assert!(!notification_window_open(Some(msk), t - 5 * 3600));
    let zero = QuietHours { tz_offset_min: 0, start_min: 600, end_min: 600 };
    assert!(notification_window_open(Some(zero), t));
    let la = QuietHours { tz_offset_min: -480, start_min: 9 * 60, end_min: 17 * 60 };
    // 22:00 UTC = 14:00 in UTC-8
    assert!(notification_window_open(Some(la), t));
    let half = QuietHours { tz_offset_min: 330, start_min: 3 * 60, end_min: 4 * 60 };
    // 22:00 UTC = 03:30 in UTC+5:30
    assert!(notification_window_open(Some(half), t));
}

#[test]
fn clock_readings_become_timestamps() {
    assert_eq!(timestamp_from_clock(Some(1_705_356_000)), 1_705_356_000);
    assert_eq!(timestamp_from_clock(None), 0);
    assert!(wc3bot::db::now_ts() > 1_600_000_000);
}

#[test]
fn string_equality() {
    assert!(str_eq("map", KIND_MAP));
    assert!(!str_eq("Map", KIND_MAP));
    assert!(!str_eq("ma", KIND_MAP));
}

#[test]
fn old_mutes_table_is_recognised_by_its_map_column() {
    let cols = |c: &[&str]| c.iter().map(|s| s.to_string()).collect::<Vec<String>>();
    assert!(legacy_map_mutes(&cols(&["chat_id", "map", "until"])));
    assert!(!legacy_map_mutes(&cols(&["chat_id", "kind", "pattern", "until"])));
    assert!(!legacy_map_mutes(&cols(&[])));
}

#[test]
fn only_the_owner_may_act_on_a_subscription() {
    let mut s = sub(KIND_MAP, "x");
    s.chat_id = 42;
    assert!(owns(&Some(s.clone()), 42));
    assert!(!owns(&Some(s), 7));
    assert!(!owns(&None, 42));
}
