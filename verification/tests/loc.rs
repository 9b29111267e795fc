use wc3bot::loc::{tr, Lang};

#[test]
fn language_codes() {
    assert_eq!(Lang::parse("ru"), Lang::Ru);
    assert_eq!(Lang::parse("RU"), Lang::Ru);
    assert_eq!(Lang::parse("rU"), Lang::Ru);
    assert_eq!(Lang::parse("en"), Lang::En);
    assert_eq!(Lang::parse("de"), Lang::En);
    assert_eq!(Lang::parse("rus"), Lang::En);
    assert_eq!(Lang::parse(""), Lang::En);
    assert_eq!(Lang::En.code(), "en");
    assert_eq!(Lang::Ru.code(), "ru");
    assert_eq!(Lang::parse(Lang::Ru.code()), Lang::Ru);
}

#[test]
fn toggling_twice_returns() {
    assert_eq!(Lang::En.toggled(), Lang::Ru);
    assert_eq!(Lang::Ru.toggled(), Lang::En);
    assert_eq!(Lang::En.toggled().toggled(), Lang::En);
}

#[test]
fn texts_per_language() {
    assert_eq!(tr(Lang::En).btn_snooze, "😴 12h");
    assert_eq!(tr(Lang::Ru).kind_map, "🗺 Карта");
    assert_eq!(tr(Lang::En).msg_muted, "🔕 Notifications turned off");
}
