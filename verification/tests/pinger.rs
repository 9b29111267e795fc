use wc3bot::api::Game;
use wc3bot::db::UserSettings;
use wc3bot::loc::Lang;
use wc3bot::pinger::{
    age_at, format_duration, game_age, notification_kb, pinger_final_msg, pinger_msg, pinger_msg_at,
};

const WATCH_LABEL: &str = "Watch";
const UNWATCH_LABEL: &str = "Unwatch";

fn game() -> Game {
    Game {
        id: 77,
        name: "Pudge fun".to_string(),
        host: "Rutex#2561".to_string(),
        map: "Pudge Wars".to_string(),
        server: "eu".to_string(),
        slots_taken: 3,
        slots_total: 10,
        created: 1_000,
    }
}

const BASE_EN: &str = "🗺️ Map: Pudge Wars\n📛 Name: Pudge fun (EU)\n🏠 Host: Rutex#2561\n👥 Players: 3/10";

#[test]
fn durations_print_minutes_and_padded_seconds() {
    assert_eq!(format_duration(0), "0s");
    assert_eq!(format_duration(59), "59s");
    assert_eq!(format_duration(60), "1m00s");
    assert_eq!(format_duration(125), "2m05s");
    assert_eq!(format_duration(3_671), "61m11s");
}

#[test]
fn age_saturates_at_zero() {
    assert_eq!(age_at(1_125, 1_000), 125);
    assert_eq!(age_at(900, 1_000), 0);
    assert!(game_age(0) > 1_600_000_000);
    assert_eq!(game_age(i64::MAX), 0);
}

#[test]
fn live_and_final_messages() {
    let g = game();
    assert_eq!(pinger_msg_at(&g, 125, Lang::En), format!("{BASE_EN}\n\n⏱ Created: 2m05s ago"));
    assert_eq!(pinger_final_msg(&g, 42, Lang::En), format!("{BASE_EN}\n\n✅ Started: after 42s"));
    assert!(pinger_final_msg(&g, 61, Lang::Ru).ends_with("✅ Началось: спустя 1m01s"));
    assert!(pinger_msg(&g, Lang::En).starts_with(BASE_EN));
}

#[test]
fn notification_buttons() {
    let g = game();
    let none = UserSettings { user_id: 1, watched_identity: None, monitoring_enabled: false };
    let rows = notification_kb(Lang::En, "map", "pudge", &g, &none, false, WATCH_LABEL, UNWATCH_LABEL);
    assert_eq!(rows.len(), 2);
    assert_eq!(rows[0][0].data, "snooze:map:pudge");
    assert_eq!(rows[0][1].data, "mute:map:pudge");
    assert_eq!(rows[1].len(), 2);
    assert_eq!((rows[1][0].label.as_str(), rows[1][0].data.as_str()), (WATCH_LABEL, "watch:77"));
    assert_eq!(rows[1][1].data, "check");
    let rows = notification_kb(Lang::En, "map", "pudge", &g, &none, true, WATCH_LABEL, UNWATCH_LABEL);
    assert_eq!((rows[1][0].label.as_str(), rows[1][0].data.as_str()), (UNWATCH_LABEL, "unwatch:77"));
    let me = UserSettings {
        user_id: 1,
        watched_identity: Some("rutex#2561".to_string()),
        monitoring_enabled: true,
    };
    let rows = notification_kb(Lang::Ru, "host", "rutex", &g, &me, false, WATCH_LABEL, UNWATCH_LABEL);
    assert_eq!(rows[1].len(), 1);
    assert_eq!(rows[1][0].data, "check");
}
