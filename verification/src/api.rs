//! A lobby as the wc3stats game list reports it, and the text of the
//! notification about it.
use vstd::prelude::*;
use crate::loc::{texts_en, texts_ru, tr, Lang, T};
use crate::norm::all_ascii;
use crate::startup::ascii_upper;
use crate::text::{
    append_chars, chars_of, replace_all, replace_chars, signed_decimal,
    signed_decimal_chars, string_of, trim, trim_chars,
};

verus! {

/// One open lobby.
#[derive(Debug, Clone, PartialEq, Eq)]
pub struct Game {
    pub id: i64,
    pub name: String,
    pub host: String,
    pub map: String,
    pub server: String,
    pub slots_taken: i32,
    pub slots_total: i32,
    pub created: i64,
}

/// What `str::to_uppercase` gives for a string that is not all ASCII.
pub uninterp spec fn uppercase_beyond_ascii(s: Seq<char>) -> Seq<char>;

/// What `str::to_uppercase` gives for `s`: for an ASCII string, each letter
/// `a` to `z` made upper case and everything else kept.
pub open spec fn uppercase_of(s: Seq<char>) -> Seq<char> {
    if all_ascii(s) {
        s.map_values(|c: char| ascii_upper(c))
    } else {
        uppercase_beyond_ascii(s)
    }
}

/// Calls `str::to_uppercase`, which on ASCII text maps `a`–`z` to `A`–`Z` and
/// keeps the rest: the result is `uppercase_of(s)`.
#[verifier::external_body]
fn str_to_uppercase(s: &str) -> (r: String)
    ensures
        r@ == uppercase_of(s@),
        !all_ascii(s@) ==> r@ == uppercase_beyond_ascii(s@),
{
    s.to_uppercase()
}

/// The texts of `lang`.
pub open spec fn texts_of(lang: Lang) -> T {
    match lang {
        Lang::En => texts_en(),
        Lang::Ru => texts_ru(),
    }
}

/// The name shown for a lobby: its own, or the placeholder when it is blank.
pub open spec fn shown_name(g: Game, t: T) -> Seq<char> {
    if trim(g.name@).len() == 0 {
        t.dash@
    } else {
        g.name@
    }
}

/// The four lines of a notification about `g` in texts `t`: map, name with
/// server, host, players.
pub open spec fn notification_text_of(g: Game, t: T) -> Seq<char> {
    replace_all(t.ping_map@, "{map}"@, g.map@) + seq!['\n'] + replace_all(
        replace_all(t.ping_name@, "{name}"@, shown_name(g, t)),
        "{server}"@,
        uppercase_of(g.server@),
    ) + seq!['\n'] + replace_all(t.ping_host@, "{host}"@, g.host@) + seq!['\n'] + replace_all(
        replace_all(t.ping_slots@, "{taken}"@, signed_decimal(g.slots_taken as int)),
        "{total}"@,
        signed_decimal(g.slots_total as int),
    )
}

/// `template` with the non-empty literal `key` replaced by `value`.
pub(crate) fn fill(template: &Vec<char>, key: &str, value: &Vec<char>) -> (r: Vec<char>)
    requires
        key@.len() > 0,
    ensures
        r@ == replace_all(template@, key@, value@),
{
    let k = chars_of(key);
    replace_chars(template, &k, value)
}

impl Game {
    /// A copy of the game, equal to it field by field.
    pub fn duplicate(&self) -> (r: Game)
        ensures
            r == *self,
    {
        Game {
            id: self.id,
            name: self.name.clone(),
            host: self.host.clone(),
            map: self.map.clone(),
            server: self.server.clone(),
            slots_taken: self.slots_taken,
            slots_total: self.slots_total,
            created: self.created,
        }
    }

    /// The notification text about this lobby in `lang`.
    pub fn notification_text(&self, lang: Lang) -> (r: String)
        ensures
            r@ == notification_text_of(*self, texts_of(lang)),
    {
        let t = tr(lang);
        proof {
            reveal_strlit("{map}");
            reveal_strlit("{name}");
            reveal_strlit("{server}");
            reveal_strlit("{host}");
            reveal_strlit("{taken}");
            reveal_strlit("{total}");
        }
        let raw_name = chars_of(self.name.as_str());
        let name = if trim_chars(&raw_name).len() == 0 {
            chars_of(t.dash)
        } else {
            raw_name
        };
        let map_line = fill(&chars_of(t.ping_map), "{map}", &chars_of(self.map.as_str()));
        let server = str_to_uppercase(self.server.as_str());
        let name_line = fill(
            &fill(&chars_of(t.ping_name), "{name}", &name),
            "{server}",
            &chars_of(server.as_str()),
        );
        let host_line = fill(&chars_of(t.ping_host), "{host}", &chars_of(self.host.as_str()));
        let slots_line = fill(
            &fill(
                &chars_of(t.ping_slots),
                "{taken}",
                &signed_decimal_chars(self.slots_taken as i64),
            ),
            "{total}",
            &signed_decimal_chars(self.slots_total as i64),
        );
        let mut out = map_line;
        out.push('\n');
        append_chars(&mut out, &name_line);
        out.push('\n');
        append_chars(&mut out, &host_line);
        out.push('\n');
        append_chars(&mut out, &slots_line);
        string_of(&out)
    }
}

} // verus!
