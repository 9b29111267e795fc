//! Where the bot's token comes from: the command line first, then a variable
//! named after the bot, then the well-known variables. Reading the process's
//! arguments, environment and dotenv files happens outside this crate; these
//! functions decide from what was read.
use vstd::prelude::*;
use crate::db::str_eq;
use crate::text::{
    all_digits, append_chars, append_str, chars_of, is_digit, slice_chars, string_of, trim, trim_chars,
};

verus! {

/// Whether `c` may stand in a variable name built from the bot's name.
pub open spec fn is_name_char(c: char) -> bool {
    ('a' <= c && c <= 'z') || ('A' <= c && c <= 'Z') || ('0' <= c && c <= '9') || c == '_'
}

/// `c` with an ASCII lower-case letter made upper case.
pub open spec fn ascii_upper(c: char) -> char {
    if 'a' <= c && c <= 'z' {
        ((c as u8) - 32u8) as char
    } else {
        c
    }
}

/// `s` without its leading `@` characters.
pub open spec fn strip_ats(s: Seq<char>) -> Seq<char>
    decreases s.len(),
{
    if s.len() > 0 && s[0] == '@' {
        strip_ats(s.drop_first())
    } else {
        s
    }
}

/// The name characters of `s`, upper-cased, in order.
pub open spec fn upper_name_chars(s: Seq<char>) -> Seq<char>
    decreases s.len(),
{
    if s.len() == 0 {
        Seq::empty()
    } else {
        upper_name_chars(s.drop_last()) + if is_name_char(s.last()) {
            seq![ascii_upper(s.last())]
        } else {
            Seq::empty()
        }
    }
}

/// A bot name made fit for a variable name: leading `@`s dropped, only ASCII
/// letters, digits and `_` kept, upper case.
pub open spec fn sanitized_name(name: Seq<char>) -> Seq<char> {
    upper_name_chars(strip_ats(name))
}

/// The position of the first character of `v` that is not `@`.
fn skip_ats(v: &Vec<char>) -> (k: usize)
    ensures
        k <= v.len(),
        v@.subrange(k as int, v.len() as int) == strip_ats(v@),
{
    let mut k: usize = 0;
    assert(v@.subrange(0, v.len() as int) =~= v@);
    while k < v.len() && v[k] == '@'
        invariant
            k <= v.len(),
            strip_ats(v@) == strip_ats(v@.subrange(k as int, v.len() as int)),
        decreases v.len() - k,
    {
        let ghost s = v@.subrange(k as int, v.len() as int);
        assert(s.drop_first() =~= v@.subrange(k + 1, v.len() as int));
        k = k + 1;
    }
    let ghost s = v@.subrange(k as int, v.len() as int);
    assert(!(s.len() > 0 && s[0] == '@'));
    k
}

/// The bot name as it stands in the name of its token variable.
pub fn sanitize_name(name: &str) -> (r: String)
    ensures
        r@ == sanitized_name(name@),
{
    let v = chars_of(name);
    let k = skip_ats(&v);
    let s = slice_chars(&v, k, v.len());
    let mut out: Vec<char> = Vec::new();
    let mut i: usize = 0;
    while i < s.len()
        invariant
            i <= s.len(),
            out@ == upper_name_chars(s@.take(i as int)),
        decreases s.len() - i,
    {
        let c = s[i];
        let ghost next = s@.take(i + 1);
        assert(next.drop_last() =~= s@.take(i as int));
        assert(next.last() == c);
        if ('a' <= c && c <= 'z') || ('A' <= c && c <= 'Z') || ('0' <= c && c <= '9') || c == '_' {
            let u = if 'a' <= c && c <= 'z' {
                ((c as u8) - 32u8) as char
            } else {
                c
            };
            out.push(u);
        } else {
            assert(out@ + Seq::<char>::empty() =~= out@);
        }
        i = i + 1;
    }
    assert(s@.take(s.len() as int) =~= s@);
    string_of(&out)
}

/// Whether a bare argument is taken for a token: it holds a colon or only
/// ASCII digits.
pub open spec fn token_like(a: Seq<char>) -> bool {
    a.contains(':') || all_digits(a)
}

/// The argument after position `i`, if any.
pub open spec fn next_arg(args: Seq<String>, i: int) -> Option<Seq<char>> {
    if i + 1 < args.len() {
        Some(args[i + 1]@)
    } else {
        None
    }
}

/// The bot name and token that the arguments from position `i` on leave,
/// given those read before: `--token`/`-t` and `--name`/`-n` take the next
/// argument (nothing when there is none); any other argument is a token when
/// it holds a colon or only digits, else the name unless one was given.
pub open spec fn cli_from(
    args: Seq<String>,
    i: int,
    name: Option<Seq<char>>,
    token: Option<Seq<char>>,
) -> (Option<Seq<char>>, Option<Seq<char>>)
    decreases args.len() + 1 - i,
{
    if i < 0 || i >= args.len() {
        (name, token)
    } else {
        let a = args[i]@;
        if a == "--token"@ || a == "-t"@ {
            cli_from(args, i + 2, name, next_arg(args, i))
        } else if a == "--name"@ || a == "-n"@ {
            cli_from(args, i + 2, next_arg(args, i), token)
        } else if token_like(a) {
            cli_from(args, i + 1, name, Some(a))
        } else if name is None {
            cli_from(args, i + 1, Some(a), token)
        } else {
            cli_from(args, i + 1, name, token)
        }
    }
}

/// The bot name and token given on the command line.
pub struct CliArgs {
    pub name: Option<String>,
    pub token: Option<String>,
}

/// Whether `s` holds a colon or only ASCII digits.
fn is_token_like(s: &str) -> (r: bool)
    ensures
        r == token_like(s@),
{
    let v = chars_of(s);
    let mut colon = false;
    let mut digits = true;
    let mut i: usize = 0;
    while i < v.len()
        invariant
            i <= v.len(),
            v@ == s@,
            colon == exists|j: int| 0 <= j < i && v@[j] == ':',
            digits == forall|j: int| 0 <= j < i ==> is_digit(#[trigger] v@[j]),
        decreases v.len() - i,
    {
        if v[i] == ':' {
            colon = true;
        }
        if !('0' <= v[i] && v[i] <= '9') {
            digits = false;
        }
        i = i + 1;
    }
    assert(colon == s@.contains(':'));
    colon || digits
}

/// Reads the bot name and token from the program's arguments (without the
/// program's own name).
pub fn parse_args(args: &Vec<String>) -> (r: CliArgs)
    ensures
        cli_from(args@, 0, None, None) == (opt_seq(r.name), opt_seq(r.token)),
{
    let mut name: Option<String> = None;
    let mut token: Option<String> = None;
    let mut i: usize = 0;
    while i < args.len()
        invariant
            i <= args.len(),
            cli_from(args@, 0, None, None) == cli_from(args@, i as int, opt_seq(name), opt_seq(token)),
        decreases args.len() - i,
    {
        let a = args[i].as_str();
        let ghost i0 = i as int;
        let ghost n0 = opt_seq(name);
        let ghost t0 = opt_seq(token);
        let following = if i + 1 < args.len() {
            Some(args[i + 1].clone())
        } else {
            None
        };
        proof {
            if i + 1 < args.len() {
                assert(opt_seq(following) == next_arg(args@, i as int));
            }
        }
        let skip = if i + 1 < args.len() {
            i + 2
        } else {
            args.len()
        };
        if str_eq(a, "--token") || str_eq(a, "-t") {
            token = following;
            i = skip;
        } else if str_eq(a, "--name") || str_eq(a, "-n") {
            name = following;
            i = skip;
        } else {
            if is_token_like(a) {
                token = Some(args[i].clone());
            } else if name.is_none() {
                name = Some(args[i].clone());
            }
            i = i + 1;
        }
        assert(cli_from(args@, i0, n0, t0) == cli_from(args@, i as int, opt_seq(name), opt_seq(token)))
            by {
            if i0 + 1 >= args.len() {
                let x = opt_seq(name);
                let y = opt_seq(token);
                assert(cli_from(args@, i0 + 2, x, y) == (x, y));
                assert(cli_from(args@, args.len() as int, x, y) == (x, y));
            }
        }
    }
    CliArgs { name, token }
}

/// The view of an optional string.
pub open spec fn opt_seq(o: Option<String>) -> Option<Seq<char>> {
    match o {
        Some(s) => Some(s@),
        None => None,
    }
}

/// A token given on the command line, trimmed; none when it is blank.
pub open spec fn usable_token(token: Option<Seq<char>>) -> Option<Seq<char>> {
    match token {
        Some(t) => if trim(t).len() > 0 {
            Some(trim(t))
        } else {
            None
        },
        None => None,
    }
}

/// A token value trimmed, or `None` when it is blank or missing.
pub fn usable(token: &Option<String>) -> (r: Option<String>)
    ensures
        opt_seq(r) == usable_token(opt_seq(*token)),
{
    match token {
        Some(t) => {
            let v = trim_chars(&chars_of(t.as_str()));
            if v.len() > 0 {
                Some(string_of(&v))
            } else {
                None
            }
        },
        None => None,
    }
}

/// The variables that may hold the token, in the order they are tried:
/// `<NAME>_TOKEN` for a bot name, then `TELEGRAM_BOT_TOKEN`, `WC3BOT_TOKEN`
/// and `BOT_TOKEN`.
pub open spec fn token_keys_for(name: Option<Seq<char>>) -> Seq<Seq<char>> {
    let fixed = seq!["TELEGRAM_BOT_TOKEN"@, "WC3BOT_TOKEN"@, "BOT_TOKEN"@];
    match name {
        Some(n) => seq![sanitized_name(n) + "_TOKEN"@] + fixed,
        None => fixed,
    }
}

/// The variables that may hold the token, in the order they are tried.
pub fn token_keys(name: &Option<String>) -> (r: Vec<String>)
    ensures
        r@.map_values(|s: String| s@) == token_keys_for(opt_seq(*name)),
{
    let mut r: Vec<String> = Vec::new();
    match name {
        Some(n) => {
            let mut v = chars_of(sanitize_name(n.as_str()).as_str());
            append_str(&mut v, "_TOKEN");
            r.push(string_of(&v));
        },
        None => {},
    }
    r.push(string_of(&chars_of("TELEGRAM_BOT_TOKEN")));
    r.push(string_of(&chars_of("WC3BOT_TOKEN")));
    r.push(string_of(&chars_of("BOT_TOKEN")));
    assert(r@.map_values(|s: String| s@) =~= token_keys_for(opt_seq(*name)));
    r
}

/// The first of the values read for the token variables that is not blank,
/// with its position: the variable it came from.
pub open spec fn first_usable(values: Seq<Option<String>>) -> Option<(int, Seq<char>)>
    decreases values.len(),
{
    if values.len() == 0 {
        None
    } else {
        match first_usable(values.drop_last()) {
            Some(p) => Some(p),
            None => match usable_token(opt_seq(values.last())) {
                Some(t) => Some((values.len() - 1, t)),
                None => None,
            },
        }
    }
}

/// Picks the token from the values read for the token variables, in order:
/// the first that is not blank, trimmed, with the position of its variable.
pub fn pick_token(values: &Vec<Option<String>>) -> (r: Option<(usize, String)>)
    ensures
        match r {
            Some((i, t)) => first_usable(values@) == Some((i as int, t@)) && i < values@.len(),
            None => first_usable(values@) is None,
        },
{
    let mut i: usize = 0;
    while i < values.len()
        invariant
            i <= values.len(),
            first_usable(values@.take(i as int)) is None,
        decreases values.len() - i,
    {
        let ghost next = values@.take(i + 1);
        assert(next.drop_last() =~= values@.take(i as int));
        assert(next.last() == values@[i as int]);
        match usable(&values[i]) {
            Some(t) => {
                proof {
                    lemma_first_usable_prefix(values@, i + 1);
                }
                return Some((i, t));
            },
            None => {},
        }
        i = i + 1;
    }
    assert(values@.take(values.len() as int) =~= values@);
    None
}

proof fn lemma_first_usable_prefix(values: Seq<Option<String>>, n: int)
    requires
        0 <= n <= values.len(),
        first_usable(values.take(n)) is Some,
    ensures
        first_usable(values) == first_usable(values.take(n)),
    decreases values.len() - n,
{
    if n < values.len() {
        let next = values.take(n + 1);
        assert(next.drop_last() =~= values.take(n));
        lemma_first_usable_prefix(values, n + 1);
    } else {
        assert(values.take(n) =~= values);
    }
}

/// The dotenv files read for a bot name besides `.env`: `.<name>` and
/// `.env.<name>`, the name without its leading `@`s.
pub open spec fn dotenv_files_for(name: Seq<char>) -> Seq<Seq<char>> {
    seq![seq!['.'] + strip_ats(name), ".env."@ + strip_ats(name)]
}

/// The dotenv files read for bot `name` besides `.env`.
pub fn dotenv_files(name: &str) -> (r: Vec<String>)
    ensures
        r@.map_values(|s: String| s@) == dotenv_files_for(name@),
{
    let v = chars_of(name);
    let k = skip_ats(&v);
    let base = slice_chars(&v, k, v.len());
    let mut a: Vec<char> = Vec::new();
    a.push('.');
    let mut b = chars_of(".env.");
    let mut i: usize = 0;
    while i < base.len()
        invariant
            i <= base.len(),
            a@ == seq!['.'] + base@.take(i as int),
            b@ == ".env."@ + base@.take(i as int),
        decreases base.len() - i,
    {
        a.push(base[i]);
        b.push(base[i]);
        assert(base@.take(i + 1) =~= base@.take(i as int).push(base@[i as int]));
        assert(a@ =~= seq!['.'] + base@.take(i + 1));
        assert(b@ =~= ".env."@ + base@.take(i + 1));
        i = i + 1;
    }
    assert(base@.take(base.len() as int) =~= base@);
    let mut r: Vec<String> = Vec::new();
    r.push(string_of(&a));
    r.push(string_of(&b));
    assert(r@.map_values(|s: String| s@) =~= dotenv_files_for(name@));
    r
}

/// `parts` joined with `sep` between them.
pub open spec fn joined(parts: Seq<Seq<char>>, sep: Seq<char>) -> Seq<char>
    decreases parts.len(),
{
    if parts.len() == 0 {
        Seq::empty()
    } else if parts.len() == 1 {
        parts[0]
    } else {
        joined(parts.drop_last(), sep) + sep + parts.last()
    }
}

/// What the bot says when it finds no token, naming the variables it tried.
pub open spec fn missing_token_text(keys: Seq<Seq<char>>) -> Seq<char> {
    "токен не найден. Задай его через --token, или в переменной "@ + joined(keys, " / "@)
        + " (можно в файле .env)"@
}

/// The token and where it was found, or what to say when there is none: a
/// usable token from the command line first, else the first variable among
/// `keys` whose value (in `values`, at the same position) is not blank.
pub open spec fn token_choice(
    cli_token: Option<Seq<char>>,
    keys: Seq<Seq<char>>,
    values: Seq<Option<String>>,
) -> Result<(Seq<char>, Seq<char>), Seq<char>> {
    match usable_token(cli_token) {
        Some(t) => Ok((t, "аргумент командной строки"@)),
        None => match first_usable(values) {
            Some((i, t)) => Ok((t, "env "@ + keys[i])),
            None => Err(missing_token_text(keys)),
        },
    }
}

/// Decides the token from the command line's `cli_token` and the values read
/// for the variables `keys`.
pub fn resolve_token(cli_token: &Option<String>, keys: &Vec<String>, values: &Vec<Option<String>>) -> (r:
    Result<(String, String), String>)
    requires
        keys.len() == values.len(),
    ensures
        match r {
            Ok((t, source)) => token_choice(opt_seq(*cli_token), keys@.map_values(|s: String| s@), values@)
                == Ok::<(Seq<char>, Seq<char>), Seq<char>>((t@, source@)),
            Err(msg) => token_choice(opt_seq(*cli_token), keys@.map_values(|s: String| s@), values@)
                == Err::<(Seq<char>, Seq<char>), Seq<char>>(msg@),
        },
{
    let ghost ks = keys@.map_values(|s: String| s@);
    match usable(cli_token) {
        Some(t) => {
            return Ok((t, string_of(&chars_of("аргумент командной строки"))));
        },
        None => {},
    }
    match pick_token(values) {
        Some((i, t)) => {
            let mut src = chars_of("env ");
            append_str(&mut src, keys[i].as_str());
            assert(ks[i as int] == keys@[i as int]@);
            Ok((t, string_of(&src)))
        },
        None => {
            let mut msg = chars_of("токен не найден. Задай его через --token, или в переменной ");
            let mut list: Vec<char> = Vec::new();
            let mut i: usize = 0;
            while i < keys.len()
                invariant
                    i <= keys.len(),
                    ks == keys@.map_values(|s: String| s@),
                    list@ == joined(ks.take(i as int), " / "@),
                decreases keys.len() - i,
            {
                let ghost next = ks.take(i + 1);
                assert(next.drop_last() =~= ks.take(i as int));
                assert(next.last() == keys@[i as int]@);
                if i > 0 {
                    append_str(&mut list, " / ");
                } else {
                    assert(ks.take(i as int).len() == 0);
                    assert(list@.len() == 0);
                }
                append_str(&mut list, keys[i].as_str());
                if i == 0 {
                    assert(list@ =~= next[0]);
                }
                i = i + 1;
            }
            assert(ks.take(keys.len() as int) =~= ks);
            append_chars(&mut msg, &list);
            append_str(&mut msg, " (можно в файле .env)");
            Err(string_of(&msg))
        },
    }
}

/// Whether `c` is an upper-case ASCII letter, a digit or `_`.
pub open spec fn is_key_char(c: char) -> bool {
    ('A' <= c && c <= 'Z') || ('0' <= c && c <= '9') || c == '_'
}

/// Whatever the bot's name, the variable name built from it holds only
/// upper-case ASCII letters, digits and underscores.
pub proof fn law_sanitized_name_is_a_key(name: Seq<char>)
    ensures
        forall|i: int| 0 <= i < sanitized_name(name).len() ==> is_key_char(#[trigger] sanitized_name(name)[i]),
{
    lemma_upper_name_chars(strip_ats(name));
}

proof fn lemma_upper_name_chars(s: Seq<char>)
    ensures
        forall|i: int| 0 <= i < upper_name_chars(s).len() ==> is_key_char(#[trigger] upper_name_chars(s)[i]),
    decreases s.len(),
{
    if s.len() > 0 {
        lemma_upper_name_chars(s.drop_last());
        let p = upper_name_chars(s.drop_last());
        let u = upper_name_chars(s);
        let c = s.last();
        assert forall|i: int| 0 <= i < u.len() implies is_key_char(#[trigger] u[i]) by {
            if i < p.len() {
                assert(u[i] == p[i]);
            } else {
                assert(u[i] == ascii_upper(c));
                if 'a' <= c && c <= 'z' {
                    assert(((c as u8) - 32u8) as char == ascii_upper(c));
                }
            }
        }
    }
}

/// A token given on the command line wins over every variable.
pub proof fn law_command_line_token_wins(
    cli_token: Option<Seq<char>>,
    keys: Seq<Seq<char>>,
    values: Seq<Option<String>>,
)
    requires
        usable_token(cli_token) is Some,
    ensures
        token_choice(cli_token, keys, values) matches Ok((t, _)) && Some(t) == usable_token(cli_token),
{
}

} // verus!
