use wc3bot::quiet::{format_minutes, format_tz_offset, parse_hhmm, parse_utc_offset};
use wc3bot::norm::normalize;

#[test]
fn normalize_keeps_lowercase_letters_and_digits() {
    assert_eq!(normalize("CHS -"), "chs");
    assert_eq!(normalize("something*chs*"), "somethingchs");
    assert_eq!(normalize("chs"), "chs");
    assert_eq!(normalize("Legion_TD 11.4b"), "legiontd114b");
    assert_eq!(normalize("Привет, Мир!"), "приветмир");
    assert_eq!(normalize("  \t"), "");
}

#[test]
fn match_needs_a_non_empty_pattern() {
    assert!(!wc3bot::norm::matches("***", "anything"));
    assert!(wc3bot::norm::matches("мир", "Привет, МИР"));
    assert!(!wc3bot::norm::matches("pudge wars", "pudge"));
}

#[test]
fn ascii_normal_form_is_stable() {
    for s in ["CHS - fast", "Legion_TD 11.4b", "a1!B2?c3", ""] {
        let n = normalize(s);
        let expected: String = s.chars().filter(|c| c.is_ascii_alphanumeric()).map(|c| c.to_ascii_lowercase()).collect();
        assert_eq!(n, expected);
        assert_eq!(normalize(&n), n);
    }
}

#[test]
fn shown_times_and_offsets_read_back() {
    for m in [0, 5, 59, 60, 719, 1380, 1439] {
        assert_eq!(parse_hhmm(&format_minutes(m)), Some(m));
    }
    assert_eq!(parse_hhmm("  7:5 \t"), Some(7 * 60 + 5));
    for d in ["3", "5:30", "0", "12:05"] {
        let v = parse_utc_offset(d);
        assert_eq!(parse_utc_offset(&format!("+{d}")), v);
        assert_eq!(parse_utc_offset(&format!("-{d}")), v.map(|x| -x));
        assert_eq!(parse_utc_offset(&format!("UTC{d}")), v);
        assert_eq!(parse_utc_offset(&format!(" \u{3000}{d}\n")), v);
    }
    for off in [180, -300, 330, -30, 0] {
        assert_eq!(parse_utc_offset(&format_tz_offset(off)), Some(off));
    }
}
