use wc3bot::db::{MapMute, QuietHours, Sub};
use wc3bot::quiet::{format_minutes, format_tz_offset};
use wc3bot::handlers::{
    add_all_text, added_text, authorize, host_filter_buttons, manage_text, kind_icon, kind_label, kind_to_pending,
    main_menu_buttons, manage_buttons, message_step, needs_pin, parse_command, pending_after_callback,
    route_callback, sanitize_input, silence_button_data, status_body, sub_button_data, sub_view_buttons,
    sub_view_text, host_filter_text, quiet_screen_text, CallbackAction, ChatPin, FilterTexts, ManageTexts, QuietTexts, StatusTexts, Command, MessageAction, MuteOp, Pending, SubCallback, SubOp,
};
use wc3bot::loc::{tr, Lang};

fn sub(id: i64, kind: &str, pattern: &str, enabled: bool) -> Sub {
    Sub {
        id,
        chat_id: 7,
        kind: kind.to_string(),
        pattern: pattern.to_string(),
        enabled,
        host_filter: "off".to_string(),
    }
}

#[test]
fn sanitize_keeps_first_64_chars_and_trims() {
    assert_eq!(sanitize_input("  pudge  "), "pudge");
    let long: String = std::iter::repeat('x').take(70).collect();
    assert_eq!(sanitize_input(&long).chars().count(), 64);
    let padded = format!("{} tail", "y".repeat(63));
    assert_eq!(sanitize_input(&padded), "y".repeat(63));
    assert_eq!(sanitize_input("   "), "");
}

#[test]
fn kinds_map_to_pending_labels_and_icons() {
    assert_eq!(kind_to_pending("host"), Pending::AddHost);
    assert_eq!(kind_to_pending("name"), Pending::AddName);
    assert_eq!(kind_to_pending("map"), Pending::AddMap);
    assert_eq!(kind_to_pending("other"), Pending::AddMap);
    let t = tr(Lang::En);
    assert_eq!(kind_label("host", &t), "👤 Host");
    assert_eq!(kind_label("weird", &t), "🗺 Map");
    assert_eq!(kind_icon("name"), "📛");
    assert_eq!(kind_icon("map"), "🗺");
}

#[test]
fn commands_are_read_from_the_first_word() {
    assert_eq!(parse_command("/start"), Command::Menu);
    assert_eq!(parse_command("/help me"), Command::Menu);
    assert_eq!(parse_command("/manage"), Command::Manage);
    assert_eq!(parse_command("/cancel"), Command::Cancel);
    assert_eq!(parse_command("/done"), Command::Done);
    assert_eq!(parse_command("/stop now"), Command::Stop);
    assert_eq!(parse_command("/unknown"), Command::Other);
}

#[test]
fn command_drops_pending_input() {
    let step = message_step(Some(Pending::AddMap), "  /cancel ");
    assert_eq!(step.next, None);
    assert!(matches!(step.action, MessageAction::Run(Command::Cancel)));
}

#[test]
fn adding_keeps_waiting_for_more_names() {
    let step = message_step(Some(Pending::AddHost), "  HellWolf#31976 ");
    assert_eq!(step.next, Some(Pending::AddHost));
    match step.action {
        MessageAction::AddSub { kind, name } => {
            assert_eq!(kind, "host");
            assert_eq!(name, "HellWolf#31976");
        }
        _ => panic!("expected AddSub"),
    }
    let step = message_step(Some(Pending::AddAll), "dota");
    assert_eq!(step.next, Some(Pending::AddAll));
    assert!(matches!(step.action, MessageAction::AddAll { ref name } if name == "dota"));
}

#[test]
fn empty_name_stops_adding() {
    let step = message_step(Some(Pending::AddMap), "   ");
    assert_eq!(step.next, None);
    assert!(matches!(step.action, MessageAction::EmptyAddition));
    let step = message_step(Some(Pending::Rename(4)), "");
    assert_eq!(step.next, None);
    assert!(matches!(step.action, MessageAction::EmptyName));
}

#[test]
fn rename_and_host_filter_consume_the_input() {
    let step = message_step(Some(Pending::Rename(4)), " legion td ");
    assert_eq!(step.next, None);
    assert!(matches!(step.action, MessageAction::Rename { id: 4, ref name } if name == "legion td"));
    let step = message_step(Some(Pending::AddHostFilter(9)), "Bob");
    assert_eq!(step.next, None);
    assert!(matches!(step.action, MessageAction::AddFilterHost { sub_id: 9, ref host } if host == "Bob"));
}

#[test]
fn quiet_hours_dialog_walks_through_three_steps() {
    let s1 = message_step(Some(Pending::QhStart), "23:00");
    assert_eq!(s1.next, Some(Pending::QhEnd { start_min: 1380 }));
    assert!(matches!(s1.action, MessageAction::AskQuietEnd));
    let s2 = message_step(s1.next, "7:00");
    assert_eq!(s2.next, Some(Pending::QhTz { start_min: 1380, end_min: 420 }));
    assert!(matches!(s2.action, MessageAction::AskQuietTz));
    let s3 = message_step(s2.next, "UTC+3");
    assert_eq!(s3.next, None);
    assert!(matches!(
        s3.action,
        MessageAction::SaveQuietHours { tz_offset_min: 180, start_min: 1380, end_min: 420 }
    ));
}

#[test]
fn quiet_hours_dialog_rejects_bad_input() {
    let s = message_step(Some(Pending::QhStart), "25:00");
    assert_eq!(s.next, Some(Pending::QhStart));
    assert!(matches!(s.action, MessageAction::BadQuietTime));
    let s = message_step(Some(Pending::QhEnd { start_min: 60 }), "01:00");
    assert_eq!(s.next, Some(Pending::QhEnd { start_min: 60 }));
    assert!(matches!(s.action, MessageAction::EmptyQuietWindow));
    let s = message_step(Some(Pending::QhEnd { start_min: 60 }), "noon");
    assert!(matches!(s.action, MessageAction::BadQuietTime));
    let s = message_step(Some(Pending::QhTz { start_min: 60, end_min: 120 }), "GMT+3");
    assert_eq!(s.next, Some(Pending::QhTz { start_min: 60, end_min: 120 }));
    assert!(matches!(s.action, MessageAction::BadQuietTz));
}

#[test]
fn text_without_pending_points_to_menu() {
    let s = message_step(None, "hello");
    assert_eq!(s.next, None);
    assert!(matches!(s.action, MessageAction::UseMenu));
}

#[test]
fn sub_callback_parse_splits_at_two_colons() {
    let cb = SubCallback::parse("hdel:12:Host:With:Colons").unwrap();
    assert_eq!(cb.op, "hdel");
    assert_eq!(cb.id, 12);
    assert_eq!(cb.extra.as_deref(), Some("Host:With:Colons"));
    let cb = SubCallback::parse("toggle:-5").unwrap();
    assert_eq!(cb.id, -5);
    assert!(cb.extra.is_none());
    assert!(SubCallback::parse("menu").is_none());
    assert!(SubCallback::parse("map:abc").is_none());
    assert!(SubCallback::parse("map:99999999999999999999").is_none());
    assert!(SubCallback::parse("map:").is_none());
}

#[test]
fn buttons_route_to_actions() {
    assert!(matches!(route_callback("menu"), CallbackAction::ShowMenu));
    assert!(matches!(route_callback("lang"), CallbackAction::ToggleLanguage));
    assert!(matches!(route_callback("addhost"), CallbackAction::StartAdding(Pending::AddHost)));
    assert!(matches!(route_callback("check"), CallbackAction::Dismiss));
    match route_callback("snooze:map:legion:td") {
        CallbackAction::Silence { op, kind, pattern } => {
            assert_eq!(op, MuteOp::Snooze);
            assert_eq!(kind, "map");
            assert_eq!(pattern, "legion:td");
        }
        _ => panic!("expected Silence"),
    }
    assert!(matches!(route_callback("mute:bogus:x"), CallbackAction::Ignore));
    assert!(matches!(route_callback("hdel:3"), CallbackAction::Ignore));
    assert!(matches!(
        route_callback("hdel:3:Bob"),
        CallbackAction::Sub { sub_op: SubOp::HostDelete, id: 3, extra: Some(ref h) } if h == "Bob"
    ));
    assert!(matches!(route_callback("hback:3"), CallbackAction::Sub { sub_op: SubOp::View, id: 3, .. }));
    assert!(matches!(route_callback("watch:100"), CallbackAction::Ignore));
    assert!(matches!(route_callback("nonsense"), CallbackAction::Ignore));
}

#[test]
fn buttons_set_pending_input() {
    let cur = Some(Pending::AddMap);
    assert_eq!(pending_after_callback(&route_callback("qh_setup"), cur), Some(Pending::QhStart));
    assert_eq!(pending_after_callback(&route_callback("cancel"), cur), None);
    assert_eq!(pending_after_callback(&route_callback("done"), cur), None);
    assert_eq!(pending_after_callback(&route_callback("menu"), cur), cur);
    assert_eq!(pending_after_callback(&route_callback("rename:8"), None), Some(Pending::Rename(8)));
    assert_eq!(pending_after_callback(&route_callback("hadd:8"), None), Some(Pending::AddHostFilter(8)));
    assert_eq!(pending_after_callback(&route_callback("addall"), None), Some(Pending::AddAll));
}

#[test]
fn button_data_reads_back() {
    let d = sub_button_data("hdel", 42, Some("Host#1"));
    assert_eq!(d, "hdel:42:Host#1");
    let cb = SubCallback::parse(&d).unwrap();
    assert_eq!((cb.op.as_str(), cb.id, cb.extra.as_deref()), ("hdel", 42, Some("Host#1")));
    assert_eq!(sub_button_data("map", -7, None), "map:-7");
    let s = silence_button_data(MuteOp::Mute, "name", "fun: games");
    assert_eq!(s, "mute:name:fun: games");
    assert!(matches!(route_callback(&s), CallbackAction::Silence { op: MuteOp::Mute, .. }));
}

#[test]
fn sub_view_text_lists_fields() {
    let t = tr(Lang::En);
    let text = sub_view_text(&sub(5, "host", "Rutex", false), &t);
    assert_eq!(
        text,
        "Subscription #5\n\nName: Rutex\nType: 👤 Host\nStatus: ❌ Disabled\n\n\
         Notifications are sent when a new lobby's host name contains this name (case- and symbol-insensitive)."
    );
}

fn status_texts() -> StatusTexts {
    StatusTexts {
        muted_hdr: "Muted",
        muted_empty: "none",
        forever: "forever",
        hours: "h",
        minutes: "m",
        remaining: "left",
        quiet_hdr: "Quiet hours",
        quiet_off: "off",
    }
}

#[test]
fn status_body_lists_enabled_subs_by_kind() {
    let t = tr(Lang::En);
    let x = status_texts();
    let subs = vec![
        sub(1, "host", "Bob", true),
        sub(2, "map", "pudge", true),
        sub(3, "map", "dota", false),
        sub(4, "map", "chs", true),
    ];
    let text = status_body(&t, &x, true, &subs, &vec![], 0, None);
    assert_eq!(
        text,
        "📊 Status:\n\nNotifications: ✅ Enabled\nTotal maps: 4\nActive maps: 3\
         \n\n🗺 Map:\n• pudge\n• chs\n\n👤 Host:\n• Bob\n\nMuted:\nnone\n\nQuiet hours:\noff"
    );
    let empty = status_body(&t, &x, false, &vec![sub(1, "map", "x", false)], &vec![], 0, None);
    assert_eq!(
        empty,
        "📊 Status:\n\nNotifications: ❌ Disabled\nTotal maps: 1\nActive maps: 0\n\nNo active maps\
         \n\nMuted:\nnone\n\nQuiet hours:\noff"
    );
}

#[test]
fn status_body_lists_mutes_and_quiet_hours() {
    let t = tr(Lang::En);
    let x = status_texts();
    let mutes = vec![
        MapMute { kind: "host".to_string(), pattern: "Bob".to_string(), until: None },
        MapMute { kind: "map".to_string(), pattern: "pudge".to_string(), until: Some(1_000 + 3 * 3600 + 25 * 60 + 7) },
        MapMute { kind: "name".to_string(), pattern: "fun".to_string(), until: Some(500) },
    ];
    let quiet = Some(QuietHours { tz_offset_min: 330, start_min: 23 * 60, end_min: 7 * 60 + 5 });
    let text = status_body(&t, &x, true, &vec![], &mutes, 1_000, quiet);
    assert!(text.ends_with(
        "\n\nMuted:\n• 👤 Host Bob — forever\n• 🗺 Map pudge — 3h 25m left\n• 📛 Name fun — 0h 0m left\
         \n\nQuiet hours:\n• 23:00–07:05 (UTC+5:30)"
    ));
}

#[test]
fn clock_and_offset_texts() {
    assert_eq!(format_minutes(0), "00:00");
    assert_eq!(format_minutes(9 * 60 + 5), "09:05");
    assert_eq!(format_minutes(23 * 60 + 59), "23:59");
    assert_eq!(format_minutes(-90), "-01:30");
    assert_eq!(format_tz_offset(180), "UTC+3");
    assert_eq!(format_tz_offset(-300), "UTC-5");
    assert_eq!(format_tz_offset(330), "UTC+5:30");
    assert_eq!(format_tz_offset(-30), "UTC-0:30");
    assert_eq!(format_tz_offset(0), "UTC+0");
}

fn pairs(rows: &[Vec<wc3bot::pinger::Button>]) -> Vec<Vec<(String, String)>> {
    rows.iter().map(|r| r.iter().map(|b| (b.label.clone(), b.data.clone())).collect()).collect()
}

fn p(label: &str, data: &str) -> (String, String) {
    (label.to_string(), data.to_string())
}

#[test]
fn main_menu_layout() {
    let t = tr(Lang::En);
    let rows = main_menu_buttons(&t, false, "Manage", "Settings");
    assert_eq!(
        pairs(&rows),
        vec![
            vec![p("Manage", "manage")],
            vec![p("➕ Map", "addmap"), p("➕ 📛 Name", "addname")],
            vec![p("➕ 👤 Host", "addhost"), p("➕ ✨ All types", "addall")],
            vec![p("🔕 Notifications: ❌ off", "notif"), p("Settings", "settings")],
            vec![p("🌐 Language: English", "lang")],
        ]
    );
}

#[test]
fn manage_layout_has_a_row_per_subscription() {
    let t = tr(Lang::En);
    let subs = vec![sub(3, "map", "pudge", true), sub(9, "host", "Bob", false)];
    let rows = manage_buttons(&t, &subs, true, "Settings");
    assert_eq!(rows.len(), 7);
    assert_eq!(pairs(&rows[..2]), vec![vec![p("🗺 Map pudge", "map:3")], vec![p("👤 Host Bob", "map:9")]]);
    assert_eq!(pairs(&rows[4..5]), vec![vec![p("🔔 Notifications: ✅ on", "notif"), p("Settings", "settings")]]);
    assert_eq!(pairs(&rows[6..]), vec![vec![p("🏠 Menu", "menu")]]);
}

#[test]
fn sub_view_layout_offers_hosts_for_map_and_name() {
    let t = tr(Lang::En);
    let rows = sub_view_buttons(&sub(4, "map", "pudge", true), &t, "Hosts");
    assert_eq!(
        pairs(&rows),
        vec![
            vec![p("❌ Disable", "toggle:4")],
            vec![p("✏️ Rename", "rename:4"), p("🗑 Delete", "del:4"), p("Hosts", "hosts:4")],
            vec![p("⬅️ Back to list", "manage"), p("🏠 Menu", "menu")],
        ]
    );
    let rows = sub_view_buttons(&sub(5, "host", "Bob", false), &t, "Hosts");
    assert_eq!(rows[0][0].label, "✅ Enable");
    assert_eq!(rows[1].len(), 2);
}

#[test]
fn host_filter_layout() {
    let t = tr(Lang::En);
    let hosts = vec!["Alice".to_string(), "B:ob".to_string()];
    let rows = host_filter_buttons(6, &hosts, &t, "Mode", "Add");
    assert_eq!(
        pairs(&rows),
        vec![
            vec![p("Alice", "hback:6"), p("🗑", "hdel:6:Alice")],
            vec![p("B:ob", "hback:6"), p("🗑", "hdel:6:B:ob")],
            vec![p("Mode", "hmode:6")],
            vec![p("Add", "hadd:6")],
            vec![p("⬅️ Back to list", "hback:6")],
        ]
    );
}

#[test]
fn pinning_decision() {
    assert!(needs_pin(true, &ChatPin::Private, 1));
    assert!(!needs_pin(false, &ChatPin::Private, 1));
    assert!(!needs_pin(false, &ChatPin::Unknown, 1));
    assert!(!needs_pin(false, &ChatPin::Group { pinned_from: Some(1) }, 1));
    assert!(needs_pin(false, &ChatPin::Group { pinned_from: Some(2) }, 1));
    assert!(needs_pin(false, &ChatPin::Group { pinned_from: None }, 1));
}

#[test]
fn replies_to_additions() {
    let t = tr(Lang::En);
    assert_eq!(
        added_text(&t, "host", "Bob", true),
        "👤 Subscription «Bob» added!\n\nSend another name or press Done to finish."
    );
    assert_eq!(
        added_text(&t, "map", "Bob", false),
        "⚠️ Such subscription already exists.\n\nSend another name or press Done to finish."
    );
    assert_eq!(
        add_all_text(&t, "dota", true, false, true),
        "✅ dota — 🗺 🗺 Map, 📛 📛 Name\n\nSend another name or press Done to finish."
    );
    assert_eq!(
        add_all_text(&t, "dota", false, false, false),
        "⚠️ Such subscription already exists.\n\nSend another name or press Done to finish."
    );
}

fn quiet_texts() -> QuietTexts {
    QuietTexts { disabled: "no quiet hours", title: "from {start} to {end} ({tz})", label: "Quiet", on: "on", off: "off" }
}

#[test]
fn quiet_screen_shows_window_and_state() {
    let x = quiet_texts();
    assert_eq!(quiet_screen_text(None, true, &x), "no quiet hours");
    let q = Some(QuietHours { tz_offset_min: -300, start_min: 22 * 60, end_min: 6 * 60 });
    assert_eq!(quiet_screen_text(q, false, &x), "from 22:00 to 06:00 (UTC-5)\n\nQuiet: on");
    assert_eq!(quiet_screen_text(q, true, &x), "from 22:00 to 06:00 (UTC-5)\n\nQuiet: off");
}

fn filter_texts() -> FilterTexts {
    FilterTexts {
        title: "Filter of {name}",
        mode: "Mode",
        mode_off: "off",
        mode_whitelist: "whitelist",
        mode_blacklist: "blacklist",
        desc_whitelist: "only these",
        desc_blacklist: "not these",
        hosts_hdr: "Hosts",
        hosts_empty: "none",
    }
}

#[test]
fn host_filter_screen_text() {
    let t = tr(Lang::En);
    let x = filter_texts();
    let s = sub(2, "map", "pudge", true);
    assert_eq!(
        host_filter_text(&s, "off", &vec![], &t, &x),
        "Filter of 🗺 Map pudge\n\nMode: off\n\nHosts:\nnone"
    );
    assert_eq!(
        host_filter_text(&s, "whitelist", &vec!["Alice".to_string(), "Bob".to_string()], &t, &x),
        "Filter of 🗺 Map pudge\n\nMode: whitelist\nonly these\n\nHosts:\n• Alice\n• Bob"
    );
    assert_eq!(
        host_filter_text(&s, "blacklist", &vec!["Eve".to_string()], &t, &x),
        "Filter of 🗺 Map pudge\n\nMode: blacklist\nnot these\n\nHosts:\n• Eve"
    );
}

#[test]
fn manage_screen_lists_all_subscriptions() {
    let t = tr(Lang::En);
    let x = status_texts();
    let m = ManageTexts { title: "Subs ({n}):", empty: "nothing", subs_hdr: "List:", hint: "\nTap one." };
    let subs = vec![sub(1, "map", "pudge", true), sub(2, "name", "fun", false)];
    let text = manage_text(&t, &x, &m, true, &subs, &vec![], 0, None);
    assert!(text.ends_with("Quiet hours:\noff\n\nSubs (2):\nList:\n\n• ✅ 🗺 Map pudge\n• ❌ 📛 Name fun\nTap one."));
    let text = manage_text(&t, &x, &m, true, &vec![], &vec![], 0, None);
    assert!(text.ends_with("\n\nSubs (0):\nnothing"));
}

#[test]
fn buttons_on_foreign_subscriptions_do_nothing() {
    let mine = Some(sub(3, "map", "pudge", true)); // chat 7
    assert!(matches!(authorize(route_callback("del:3"), &mine, 7), CallbackAction::Sub { sub_op: SubOp::Delete, id: 3, .. }));
    assert!(matches!(authorize(route_callback("del:3"), &mine, 8), CallbackAction::Ignore));
    assert!(matches!(authorize(route_callback("rename:3"), &None, 7), CallbackAction::Ignore));
    assert_eq!(pending_after_callback(&authorize(route_callback("rename:3"), &None, 7), Some(Pending::AddAll)), Some(Pending::AddAll));
    assert!(matches!(authorize(route_callback("menu"), &None, 7), CallbackAction::ShowMenu));
}
