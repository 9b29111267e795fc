use wc3bot::api::Game;
use wc3bot::loc::Lang;

fn game(name: &str) -> Game {
    Game {
        id: 1,
        name: name.to_string(),
        host: "HellWolf#31976".to_string(),
        map: "Legion TD".to_string(),
        server: "usEast".to_string(),
        slots_taken: -1,
        slots_total: 12,
        created: 0,
    }
}

#[test]
fn notification_text_in_english() {
    assert_eq!(
        game("td fun").notification_text(Lang::En),
        "🗺️ Map: Legion TD\n📛 Name: td fun (USEAST)\n🏠 Host: HellWolf#31976\n👥 Players: -1/12"
    );
}

#[test]
fn notification_text_in_russian_with_blank_name() {
    assert_eq!(
        game("   ").notification_text(Lang::Ru),
        "🗺️ Карта: Legion TD\n📛 Название: — (USEAST)\n🏠 Хост: HellWolf#31976\n👥 Игроки: -1/12"
    );
}

#[test]
fn duplicate_is_equal() {
    let g = game("x");
    assert_eq!(g.duplicate(), g);
}
