//! Texts of the messages that follow a lobby: how long it has been open, and
//! how long it took to start; and the buttons under them.
use vstd::prelude::*;
use crate::api::{notification_text_of, texts_of, Game};
use crate::clock::clock_secs;
use crate::db::UserSettings;
use crate::handlers::{silence_button_data, silence_data, sub_button_data, sub_data, MuteOp};
use crate::watcher::{nickname_interest, should_show_watch_button};
use crate::loc::{tr, Lang, T};
use crate::text::{append_chars, chars_of, decimal, decimal_chars, replace_all, replace_chars, string_of};

verus! {

/// `n` printed with at least two digits (`{:02}`).
pub open spec fn two_digits(n: nat) -> Seq<char> {
    if n < 10 {
        seq!['0'] + decimal(n)
    } else {
        decimal(n)
    }
}

/// How a duration of `secs` seconds is shown: `MmSSs` from one minute on, else `Ss`.
pub open spec fn duration_text(secs: nat) -> Seq<char> {
    if secs / 60 > 0 {
        decimal(secs / 60) + seq!['m'] + two_digits(secs % 60) + seq!['s']
    } else {
        decimal(secs % 60) + seq!['s']
    }
}

/// The text of a duration of `secs` seconds, e.g. `2m05s` or `42s`.
pub fn format_duration(secs: u64) -> (r: String)
    ensures
        r@ == duration_text(secs as nat),
{
    let m = secs / 60;
    let s = secs % 60;
    let mut out: Vec<char>;
    if m > 0 {
        out = decimal_chars(m);
        out.push('m');
        if s < 10 {
            out.push('0');
        }
        let sd = decimal_chars(s);
        append_chars(&mut out, &sd);
        out.push('s');
        assert(out@ =~= duration_text(secs as nat));
    } else {
        out = decimal_chars(s);
        out.push('s');
    }
    string_of(&out)
}

/// Seconds from `created` to `now`, or zero when `created` is not earlier;
/// `created` is read as an unsigned count of seconds.
pub open spec fn age_secs(now: u64, created: i64) -> u64 {
    if now >= created as u64 {
        (now - created as u64) as u64
    } else {
        0
    }
}

/// Seconds from `created` to the clock reading `now`.
pub fn age_at(now: u64, created: i64) -> (r: u64)
    ensures
        r == age_secs(now, created),
{
    now.saturating_sub(created as u64)
}

/// Seconds since a lobby was created, by the system clock (zero when the clock
/// is not past `created`, or stands before the epoch).
pub fn game_age(created: i64) -> (r: u64)
    ensures
        exists|now: u64| r == age_secs(now, created),
{
    let now = match clock_secs() {
        Some(s) => s,
        None => 0,
    };
    age_at(now, created)
}

/// The text of a live lobby message: the notification and how long ago the
/// lobby was created.
pub open spec fn pinger_text_of(g: Game, t: T, age: nat) -> Seq<char> {
    notification_text_of(g, t) + seq!['\n', '\n'] + replace_all(t.ping_created@, "{time}"@, duration_text(age))
}

/// The text of the final message: the notification and how long the lobby
/// took to start.
pub open spec fn pinger_final_text_of(g: Game, t: T, wait: nat) -> Seq<char> {
    notification_text_of(g, t) + seq!['\n', '\n'] + replace_all(t.ping_started@, "{time}"@, duration_text(wait))
}

/// `base`, a blank line, and `template` with `{time}` replaced by `secs` shown as a duration.
fn with_time_line(base: String, template: &str, secs: u64) -> (r: String)
    ensures
        r@ == base@ + seq!['\n', '\n'] + replace_all(template@, "{time}"@, duration_text(secs as nat)),
{
    proof {
        reveal_strlit("{time}");
    }
    let key = chars_of("{time}");
    let time = chars_of(format_duration(secs).as_str());
    let line = replace_chars(&chars_of(template), &key, &time);
    let mut out = chars_of(base.as_str());
    out.push('\n');
    out.push('\n');
    append_chars(&mut out, &line);
    string_of(&out)
}

/// The live lobby message for a lobby `age` seconds old.
pub fn pinger_msg_at(game: &Game, age: u64, lang: Lang) -> (r: String)
    ensures
        r@ == pinger_text_of(*game, texts_of(lang), age as nat),
{
    let t = tr(lang);
    let base = game.notification_text(lang);
    with_time_line(base, t.ping_created, age)
}

/// The live lobby message, its age taken from the system clock.
pub fn pinger_msg(game: &Game, lang: Lang) -> (r: String)
    ensures
        exists|now: u64| r@ == pinger_text_of(*game, texts_of(lang), age_secs(now, game.created) as nat),
{
    let age = game_age(game.created);
    pinger_msg_at(game, age, lang)
}

/// The final message for a lobby that started after `wait` seconds.
pub fn pinger_final_msg(game: &Game, wait: u64, lang: Lang) -> (r: String)
    ensures
        r@ == pinger_final_text_of(*game, texts_of(lang), wait as nat),
{
    let t = tr(lang);
    let base = game.notification_text(lang);
    with_time_line(base, t.ping_started, wait)
}

/// A button under a message: its label and the data it sends back when pressed.
pub struct Button {
    pub label: String,
    pub data: String,
}

/// Whether button `b` shows `label` and sends `data`.
pub open spec fn button_is(b: Button, label: Seq<char>, data: Seq<char>) -> bool {
    b.label@ == label && b.data@ == data
}

pub(crate) fn button(label: &str, data: String) -> (r: Button)
    ensures
        button_is(r, label@, data@),
{
    Button { label: string_of(&chars_of(label)), data }
}

/// The buttons under a notification about `game` for a subscription of `kind`
/// with `pattern`: snooze and mute in the first row; in the second, a watch
/// button (unwatch when `already_watching`) unless the user follows the
/// lobby's host by identity, then the check button. The text tables have no
/// labels for the watch buttons, so they are given as `watch_label` and
/// `unwatch_label`.
pub fn notification_kb(
    lang: Lang,
    kind: &str,
    pattern: &str,
    game: &Game,
    user_settings: &UserSettings,
    already_watching: bool,
    watch_label: &str,
    unwatch_label: &str,
) -> (rows: Vec<Vec<Button>>)
    ensures
        rows@.len() == 2,
        rows@[0]@.len() == 2,
        button_is(
            rows@[0]@[0],
            texts_of(lang).btn_snooze@,
            silence_data(MuteOp::Snooze, kind@, pattern@),
        ),
        button_is(rows@[0]@[1], texts_of(lang).btn_mute@, silence_data(MuteOp::Mute, kind@, pattern@)),
        !nickname_interest(*user_settings, *game) ==> rows@[1]@.len() == 2 && button_is(
            rows@[1]@[0],
            if already_watching {
                unwatch_label@
            } else {
                watch_label@
            },
            sub_data(
                if already_watching {
                    "unwatch"@
                } else {
                    "watch"@
                },
                game.id as int,
                None,
            ),
        ) && button_is(rows@[1]@[1], texts_of(lang).btn_check@, "check"@),
        nickname_interest(*user_settings, *game) ==> rows@[1]@.len() == 1 && button_is(
            rows@[1]@[0],
            texts_of(lang).btn_check@,
            "check"@,
        ),
{
    let t = tr(lang);
    let mut first: Vec<Button> = Vec::new();
    first.push(button(t.btn_snooze, silence_button_data(MuteOp::Snooze, kind, pattern)));
    first.push(button(t.btn_mute, silence_button_data(MuteOp::Mute, kind, pattern)));
    let mut second: Vec<Button> = Vec::new();
    if should_show_watch_button(user_settings, game) {
        if already_watching {
            second.push(button(unwatch_label, sub_button_data("unwatch", game.id, None)));
        } else {
            second.push(button(watch_label, sub_button_data("watch", game.id, None)));
        }
    }
    second.push(button(t.btn_check, string_of(&chars_of("check"))));
    let mut rows: Vec<Vec<Button>> = Vec::new();
    rows.push(first);
    rows.push(second);
    rows
}

} // verus!
