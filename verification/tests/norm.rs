#[test]
fn chs_matches_anything_around_it() {
    assert!(wc3bot::norm::matches("CHS -", "something*chs*"));
    assert!(wc3bot::norm::matches("chs", "(10) CHS 5x5 - fast game"));
    assert!(!wc3bot::norm::matches("", "anything"));
}

#[test]
fn map_and_host_names() {
    assert!(wc3bot::norm::matches("pudge", "(10) Pudge Wars v2.03d.w3x"));
    assert!(wc3bot::norm::matches("legion td", "Legion_TD_11.4b_Team_OZE.w3x"));
    assert!(wc3bot::norm::matches("hellwolf", "HellWolf#31976"));
    assert!(wc3bot::norm::matches("HellWolf#31976", "HellWolf#31976"));
    assert!(!wc3bot::norm::matches("dota", "Pudge Wars.w3x"));
}
