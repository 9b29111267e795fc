use wc3bot::startup::{dotenv_files, parse_args, pick_token, resolve_token, sanitize_name, token_keys, usable};

fn args(list: &[&str]) -> Vec<String> {
    list.iter().map(|a| a.to_string()).collect()
}

#[test]
fn name_becomes_a_variable_prefix() {
    assert_eq!(sanitize_name("@@my_bot-2"), "MY_BOT2");
    assert_eq!(sanitize_name("wc3bot"), "WC3BOT");
    assert_eq!(sanitize_name("@ä x"), "X");
}

#[test]
fn arguments_give_name_and_token() {
    let a = parse_args(&args(&["mybot", "123:abc"]));
    assert_eq!(a.name.as_deref(), Some("mybot"));
    assert_eq!(a.token.as_deref(), Some("123:abc"));
    let a = parse_args(&args(&["--name", "x", "-t", "tok", "other"]));
    assert_eq!(a.name.as_deref(), Some("x"));
    assert_eq!(a.token.as_deref(), Some("tok"));
    let a = parse_args(&args(&["12345", "first", "second"]));
    assert_eq!(a.name.as_deref(), Some("first"));
    assert_eq!(a.token.as_deref(), Some("12345"));
    let a = parse_args(&args(&["-t", "tok", "--token"]));
    assert_eq!(a.token, None);
    let a = parse_args(&args(&[]));
    assert!(a.name.is_none() && a.token.is_none());
}

#[test]
fn keys_and_files_follow_the_name() {
    assert_eq!(
        token_keys(&Some("@mybot".to_string())),
        args(&["MYBOT_TOKEN", "TELEGRAM_BOT_TOKEN", "WC3BOT_TOKEN", "BOT_TOKEN"])
    );
    assert_eq!(token_keys(&None), args(&["TELEGRAM_BOT_TOKEN", "WC3BOT_TOKEN", "BOT_TOKEN"]));
    assert_eq!(dotenv_files("@@mybot"), args(&[".mybot", ".env.mybot"]));
}

#[test]
fn blank_tokens_are_skipped() {
    assert_eq!(usable(&Some("  t0k ".to_string())).as_deref(), Some("t0k"));
    assert_eq!(usable(&Some("   ".to_string())), None);
    let values = vec![None, Some(" ".to_string()), Some(" abc ".to_string()), Some("z".to_string())];
    assert_eq!(pick_token(&values), Some((2, "abc".to_string())));
    assert_eq!(pick_token(&vec![None, None]), None);
}

#[test]
fn command_line_token_comes_first() {
    let keys = args(&["TELEGRAM_BOT_TOKEN", "WC3BOT_TOKEN", "BOT_TOKEN"]);
    let values = vec![Some("env".to_string()), None, None];
    let r = resolve_token(&Some(" cli ".to_string()), &keys, &values).unwrap();
    assert_eq!(r, ("cli".to_string(), "аргумент командной строки".to_string()));
    let r = resolve_token(&Some("  ".to_string()), &keys, &values).unwrap();
    assert_eq!(r, ("env".to_string(), "env TELEGRAM_BOT_TOKEN".to_string()));
    let r = resolve_token(&None, &keys, &vec![None, None, Some("b".to_string())]).unwrap();
    assert_eq!(r.1, "env BOT_TOKEN");
}

#[test]
fn missing_token_names_the_variables_tried() {
    let keys = args(&["X_TOKEN", "BOT_TOKEN"]);
    let err = resolve_token(&None, &keys, &vec![None, Some("".to_string())]).unwrap_err();
    assert_eq!(
        err,
        "токен не найден. Задай его через --token, или в переменной X_TOKEN / BOT_TOKEN (можно в файле .env)"
    );
}
