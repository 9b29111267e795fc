//! Lobby monitoring: users follow lobbies explicitly (the Watch button) or by
//! their host identity (`Name#1234`), and each poll of the game list turns
//! into events — a lobby first seen, players joining or leaving, a lobby
//! filling up.
use vstd::prelude::*;
use vstd::std_specs::iter::IteratorSpec;
use std::collections::{HashMap, HashSet};
use crate::api::Game;
use crate::db::UserSettings;
use crate::text::{
    all_digits, append_chars, ascii_lowercase, ascii_lowercase_chars, chars_eq, chars_of, decimal,
    decimal_chars, digits_value, find_char, index_of, lemma_index_of, slice_chars, string_of,
};

verus! {

broadcast use vstd::std_specs::hash::group_hash_axioms;

// ---------------------------------------------------------------------------
// Host identities
// ---------------------------------------------------------------------------

/// How many bytes `c` takes in UTF-8.
pub open spec fn utf8_width(c: char) -> nat {
    if (c as u32) < 0x80 {
        1
    } else if (c as u32) < 0x800 {
        2
    } else if (c as u32) < 0x10000 {
        3
    } else {
        4
    }
}

/// How many bytes `s` takes in UTF-8 (`str::len`).
pub open spec fn utf8_len(s: Seq<char>) -> nat
    decreases s.len(),
{
    if s.len() == 0 {
        0
    } else {
        utf8_len(s.drop_last()) + utf8_width(s.last())
    }
}

/// The outcome of parsing a host identity `Name#12345`: the name and the id,
/// or the message of the first rule the text breaks.
pub open spec fn identity_parse(s: Seq<char>) -> Result<(Seq<char>, int), Seq<char>> {
    match index_of(s, '#') {
        None => Err("expected format Name#12345"@),
        Some(k) => {
            let name = s.subrange(0, k);
            let id = s.subrange(k + 1, s.len() as int);
            if name.len() == 0 {
                Err("name is empty"@)
            } else if index_of(name, '#') is Some {
                Err("name must not contain '#'"@)
            } else if id.len() == 0 || utf8_len(id) > 10 {
                Err("id length out of range"@)
            } else if !all_digits(id) {
                Err("id must contain digits only"@)
            } else if digits_value(id) > u32::MAX {
                Err("id parse error"@)
            } else if digits_value(id) == 0 {
                Err("id must be > 0"@)
            } else {
                Ok((name, digits_value(id)))
            }
        },
    }
}

/// The UTF-8 length of `v[from..to]` if it is at most `limit`.
fn utf8_len_within(v: &Vec<char>, from: usize, to: usize, limit: usize) -> (r: bool)
    requires
        from <= to <= v.len(),
        limit <= 0xffff,
    ensures
        r == (utf8_len(v@.subrange(from as int, to as int)) <= limit),
{
    let mut n: usize = 0;
    let mut i = from;
    while i < to
        invariant
            from <= i <= to <= v.len(),
            limit <= 0xffff,
            n == utf8_len(v@.subrange(from as int, i as int)),
            n <= limit,
        decreases to - i,
    {
        let c = v[i];
        let w: usize = if (c as u32) < 0x80 {
            1
        } else if (c as u32) < 0x800 {
            2
        } else if (c as u32) < 0x10000 {
            3
        } else {
            4
        };
        assert(v@.subrange(from as int, i + 1).drop_last() =~= v@.subrange(from as int, i as int));
        if n + w > limit {
            proof {
                lemma_utf8_len_monotone(v@.subrange(from as int, to as int), i + 1 - from);
                assert(v@.subrange(from as int, to as int).subrange(0, i + 1 - from) =~= v@.subrange(
                    from as int,
                    i + 1,
                ));
            }
            return false;
        }
        n = n + w;
        i = i + 1;
    }
    true
}

proof fn lemma_utf8_len_monotone(s: Seq<char>, k: int)
    requires
        0 <= k <= s.len(),
    ensures
        utf8_len(s.subrange(0, k)) <= utf8_len(s),
    decreases s.len() - k,
{
    if k < s.len() {
        lemma_utf8_len_monotone(s, k + 1);
        assert(s.subrange(0, k + 1).drop_last() =~= s.subrange(0, k));
    } else {
        assert(s.subrange(0, k) =~= s);
    }
}

/// Parses a WC3 host identity of the form `Name#12345` into `(name, id)`:
/// exactly one `#`, a non-empty name, an id of 1 to 10 bytes, digits only,
/// fitting a `u32`, and greater than zero.
pub fn parse_identity(s: &str) -> (r: Result<(String, u32), &'static str>)
    ensures
        match r {
            Ok((name, id)) => identity_parse(s@) == Ok::<(Seq<char>, int), Seq<char>>((name@, id as int)),
            Err(e) => identity_parse(s@) == Err::<(Seq<char>, int), Seq<char>>(e@),
        },
{
    let v = chars_of(s);
    let found = find_char(&v, '#');
    let k = match found {
        Some(k) => k,
        None => return Err("expected format Name#12345"),
    };
    proof {
        lemma_index_of(v@, '#');
    }
    let n = v.len();
    if k == 0 {
        return Err("name is empty");
    }
    let name = slice_chars(&v, 0, k);
    if find_char(&name, '#').is_some() {
        return Err("name must not contain '#'");
    }
    if k + 1 == n || !utf8_len_within(&v, k + 1, n, 10) {
        return Err("id length out of range");
    }
    let mut i = k + 1;
    while i < n
        invariant
            k + 1 <= i <= n == v.len(),
            0 < k,
            v@ == s@,
            index_of(v@, '#') == Some(k as int),
            index_of(v@.subrange(0, k as int), '#') is None,
            utf8_len(v@.subrange(k + 1, n as int)) <= 10,
            forall|j: int| k + 1 <= j < i ==> crate::text::is_digit(#[trigger] v@[j]),
        decreases n - i,
    {
        if !('0' <= v[i] && v[i] <= '9') {
            assert(!all_digits(v@.subrange(k + 1, n as int))) by {
                assert(v@.subrange(k + 1, n as int)[i - k - 1] == v@[i as int]);
            }
            return Err("id must contain digits only");
        }
        i = i + 1;
    }
    let ghost id = v@.subrange(k + 1, n as int);
    assert(all_digits(id)) by {
        assert forall|j: int| 0 <= j < id.len() implies crate::text::is_digit(#[trigger] id[j]) by {
            assert(id[j] == v@[j + k + 1]);
        }
    }
    let parsed = match read_u32(&v, k + 1, n) {
        Some(p) => p,
        None => return Err("id parse error"),
    };
    if parsed == 0 {
        return Err("id must be > 0");
    }
    Ok((string_of(&name), parsed))
}

/// The value of the ASCII digits `v[from..to]` if it fits a `u32`.
fn read_u32(v: &Vec<char>, from: usize, to: usize) -> (r: Option<u32>)
    requires
        from <= to <= v.len(),
        all_digits(v@.subrange(from as int, to as int)),
    ensures
        match r {
            Some(n) => n == digits_value(v@.subrange(from as int, to as int)),
            None => digits_value(v@.subrange(from as int, to as int)) > u32::MAX,
        },
{
    let mut acc: u64 = 0;
    let mut i = from;
    while i < to
        invariant
            from <= i <= to <= v.len(),
            all_digits(v@.subrange(from as int, to as int)),
            acc <= u32::MAX,
            acc == digits_value(v@.subrange(from as int, i as int)),
        decreases to - i,
    {
        let c = v[i];
        assert(v@.subrange(from as int, i + 1).drop_last() =~= v@.subrange(from as int, i as int));
        assert(crate::text::is_digit(c)) by {
            assert(v@.subrange(from as int, to as int)[i - from] == c);
        }
        let d = (c as u64) - ('0' as u64);
        if acc * 10 + d > 0xffff_ffff {
            proof {
                lemma_digits_grow(v@.subrange(from as int, to as int), i + 1 - from);
                assert(v@.subrange(from as int, to as int).subrange(0, i + 1 - from) =~= v@.subrange(
                    from as int,
                    i + 1,
                ));
            }
            return None;
        }
        acc = acc * 10 + d;
        i = i + 1;
    }
    Some(acc as u32)
}

proof fn lemma_digits_grow(s: Seq<char>, k: int)
    requires
        0 <= k <= s.len(),
        all_digits(s),
    ensures
        digits_value(s.subrange(0, k)) <= digits_value(s),
    decreases s.len() - k,
{
    if k < s.len() {
        lemma_digits_grow(s, k + 1);
        let p = s.subrange(0, k + 1);
        assert(p.drop_last() =~= s.subrange(0, k));
        assert(crate::text::is_digit(s[k]));
        assert(p.last() == s[k]);
        lemma_digits_nonneg(s.subrange(0, k));
    } else {
        assert(s.subrange(0, k) =~= s);
    }
}

proof fn lemma_digits_nonneg(s: Seq<char>)
    requires
        all_digits(s),
    ensures
        digits_value(s) >= 0,
    decreases s.len(),
{
    if s.len() > 0 {
        assert(all_digits(s.drop_last())) by {
            assert forall|i: int| 0 <= i < s.drop_last().len() implies crate::text::is_digit(
                #[trigger] s.drop_last()[i],
            ) by {
                assert(s.drop_last()[i] == s[i]);
            }
        }
        lemma_digits_nonneg(s.drop_last());
        assert(crate::text::is_digit(s[s.len() - 1]));
    }
}

/// Whether a lobby host is the identity `name#id`, ignoring ASCII case.
pub open spec fn host_is(name: Seq<char>, id: int, host: Seq<char>) -> bool {
    ascii_lowercase(host) == ascii_lowercase(name) + seq!['#'] + decimal(id as nat)
}

/// Case-insensitive match of the identity `name#id` against a lobby host.
pub fn host_matches(name: &str, id: u32, host: &str) -> (r: bool)
    ensures
        r == host_is(name@, id as int, host@),
{
    let host_lc = ascii_lowercase_chars(&chars_of(host));
    let mut target = ascii_lowercase_chars(&chars_of(name));
    target.push('#');
    let digits = decimal_chars(id as u64);
    append_chars(&mut target, &digits);
    assert(target@ =~= ascii_lowercase(name@) + seq!['#'] + decimal(id as nat));
    chars_eq(&host_lc, &target)
}

/// Whether a user follows a lobby by identity: monitoring is on, their
/// identity parses, and the lobby's host is that identity.
pub open spec fn nickname_interest(settings: UserSettings, game: Game) -> bool {
    settings.monitoring_enabled && match settings.watched_identity {
        Some(identity) => match identity_parse(identity@) {
            Ok(p) => host_is(p.0, p.1, game.host@),
            Err(_) => false,
        },
        None => false,
    }
}

/// Whether the user follows `game` by identity.
pub fn follows_by_identity(settings: &UserSettings, game: &Game) -> (r: bool)
    ensures
        r == nickname_interest(*settings, *game),
{
    if !settings.monitoring_enabled {
        return false;
    }
    match &settings.watched_identity {
        Some(identity) => match parse_identity(identity.as_str()) {
            Ok((name, id)) => host_matches(name.as_str(), id, game.host.as_str()),
            Err(_) => false,
        },
        None => false,
    }
}

/// Should the Watch button be shown under a notification about `game`? Not
/// when the user already follows the lobby's host by identity; in every other
/// case (no identity, monitoring off, an identity that does not parse, another
/// host) it is.
pub fn should_show_watch_button(settings: &UserSettings, game: &Game) -> (r: bool)
    ensures
        r == !nickname_interest(*settings, *game),
{
    let identity = match &settings.watched_identity {
        Some(i) => i,
        None => return true,
    };
    if !settings.monitoring_enabled {
        return true;
    }
    match parse_identity(identity.as_str()) {
        Ok((name, id)) => !host_matches(name.as_str(), id, game.host.as_str()),
        Err(_) => true,
    }
}

// ---------------------------------------------------------------------------
// Watch state
// ---------------------------------------------------------------------------

/// Snapshot of a lobby kept with the watch state, so the monitor screen can
/// show "Map by Host — taken/total" without asking the API again.
#[derive(Debug, Clone, PartialEq, Eq)]
pub struct WatchedGame {
    pub id: i64,
    pub map: String,
    pub host: String,
    pub taken: i32,
    pub total: i32,
}

/// Per-user state of the watcher.
#[derive(Debug)]
pub struct UserWatch {
    /// `game_id` → `slots_taken` at the previous tick. A missing entry means
    /// the lobby has not been seen yet; the next tick announces it.
    pub last_taken: HashMap<i64, i32>,
    /// `game_id` → `slots_total` at the previous tick, to see a lobby fill up.
    pub last_total: HashMap<i64, i32>,
    /// Lobbies the user follows explicitly (the Watch button), whatever the host.
    pub explicit_games: HashMap<i64, WatchedGame>,
}

/// The contents of a user's watch state.
#[verifier::ext_equal]
pub struct UserWatchView {
    pub last_taken: Map<i64, i32>,
    pub last_total: Map<i64, i32>,
    pub explicit_games: Map<i64, WatchedGame>,
}

impl View for UserWatch {
    type V = UserWatchView;

    open spec fn view(&self) -> UserWatchView {
        UserWatchView {
            last_taken: self.last_taken@,
            last_total: self.last_total@,
            explicit_games: self.explicit_games@,
        }
    }
}

/// The watch state of a user who has none yet.
pub open spec fn empty_user() -> UserWatchView {
    UserWatchView {
        last_taken: Map::empty(),
        last_total: Map::empty(),
        explicit_games: Map::empty(),
    }
}

impl Default for UserWatch {
    fn default() -> (r: UserWatch)
        ensures
            r@ == empty_user(),
    {
        UserWatch {
            last_taken: HashMap::new(),
            last_total: HashMap::new(),
            explicit_games: HashMap::new(),
        }
    }
}

/// State of the whole watcher, across all users.
#[derive(Debug)]
pub struct WatchState {
    pub users: HashMap<i64, UserWatch>,
}

impl View for WatchState {
    type V = Map<i64, UserWatchView>;

    open spec fn view(&self) -> Map<i64, UserWatchView> {
        self.users@.map_values(|u: UserWatch| u@)
    }
}

impl Default for WatchState {
    fn default() -> (r: WatchState)
        ensures
            r@ == Map::<i64, UserWatchView>::empty(),
    {
        let r = WatchState { users: HashMap::new() };
        assert(r@ =~= Map::<i64, UserWatchView>::empty());
        r
    }
}

/// A user's watch state in `users`, empty when there is none.
pub open spec fn user_of(users: Map<i64, UserWatchView>, user_id: i64) -> UserWatchView {
    if users.contains_key(user_id) {
        users[user_id]
    } else {
        empty_user()
    }
}

impl WatchState {
    /// The state of user `user_id`, created empty when missing.
    pub fn user_mut(&mut self, user_id: i64) -> (r: &mut UserWatch)
        ensures
            (*r)@ == user_of(old(self)@, user_id),
            final(self)@ == old(self)@.insert(user_id, (*final(r))@),
    {
        self.users.entry(user_id).or_insert(UserWatch::default())
    }
}

/// What a user is shown as the result of a tick.
#[derive(Debug, Clone, PartialEq, Eq)]
pub enum WatchEvent {
    /// First time this user sees a lobby they follow; `nickname` when they
    /// follow it by identity rather than explicitly.
    Started { game: Game, nickname: bool },
    /// `delta` players joined (positive) or left (negative) since the last tick.
    SlotsDelta { game: Game, delta: i32 },
    /// The lobby just filled up.
    Filled { game: Game },
}

// ---------------------------------------------------------------------------
// One tick
// ---------------------------------------------------------------------------

/// The snapshot kept of a lobby a user follows explicitly.
pub open spec fn snapshot(g: Game) -> WatchedGame {
    WatchedGame { id: g.id, map: g.map, host: g.host, taken: g.slots_taken, total: g.slots_total }
}

/// Whether `v` fits an `i32`.
pub open spec fn fits_i32(v: int) -> bool {
    i32::MIN <= v <= i32::MAX
}

/// The events for user `uid` seeing lobby `g` with watch state `u`.
pub open spec fn observe_events(u: UserWatchView, g: Game, uid: i64, nickname: bool) -> Seq<(i64, WatchEvent)> {
    if !u.last_taken.contains_key(g.id) {
        seq![(uid, WatchEvent::Started { game: g, nickname })] + if g.slots_taken > 0
            && g.slots_taken == g.slots_total {
            seq![(uid, WatchEvent::Filled { game: g })]
        } else {
            seq![]
        }
    } else if u.last_total.contains_key(g.id) {
        let prev_taken = u.last_taken[g.id];
        let prev_total = u.last_total[g.id];
        (if g.slots_taken - prev_taken != 0 {
            seq![
                (
                    uid,
                    WatchEvent::SlotsDelta { game: g, delta: (g.slots_taken - prev_taken) as i32 },
                ),
            ]
        } else {
            seq![]
        }) + if prev_taken < prev_total && g.slots_taken == g.slots_total && g.slots_total > 0 {
            seq![(uid, WatchEvent::Filled { game: g })]
        } else {
            seq![]
        }
    } else {
        seq![]
    }
}

/// User `uid` with settings `us` seeing lobby `g`: the new watch states and
/// the events. A user who follows the lobby neither explicitly nor by identity
/// forgets its counts; otherwise the snapshot (if explicit) and the counts are
/// refreshed and the changes announced.
pub open spec fn observe(users: Map<i64, UserWatchView>, g: Game, uid: i64, us: UserSettings) -> (
    Map<i64, UserWatchView>,
    Seq<(i64, WatchEvent)>,
) {
    let u = user_of(users, uid);
    let nick = nickname_interest(us, g);
    let exp = u.explicit_games.contains_key(g.id);
    if !nick && !exp {
        (
            users.insert(
                uid,
                UserWatchView {
                    last_taken: u.last_taken.remove(g.id),
                    last_total: u.last_total.remove(g.id),
                    explicit_games: u.explicit_games,
                },
            ),
            seq![],
        )
    } else {
        (
            users.insert(
                uid,
                UserWatchView {
                    last_taken: u.last_taken.insert(g.id, g.slots_taken),
                    last_total: u.last_total.insert(g.id, g.slots_total),
                    explicit_games: if exp {
                        u.explicit_games.insert(g.id, snapshot(g))
                    } else {
                        u.explicit_games
                    },
                },
            ),
            observe_events(u, g, uid, nick && !exp),
        )
    }
}

/// Lobby `g` seen by the users of `order`, one after the other.
pub open spec fn observe_all(users: Map<i64, UserWatchView>, g: Game, order: Seq<(i64, UserSettings)>) -> (
    Map<i64, UserWatchView>,
    Seq<(i64, WatchEvent)>,
)
    decreases order.len(),
{
    if order.len() == 0 {
        (users, seq![])
    } else {
        let before = observe_all(users, g, order.drop_last());
        let step = observe(before.0, g, order.last().0, order.last().1);
        (step.0, before.1 + step.1)
    }
}

/// The lobbies `games`, in order, each seen by all users of `order`.
pub open spec fn observe_games(
    users: Map<i64, UserWatchView>,
    games: Seq<Game>,
    order: Seq<(i64, UserSettings)>,
) -> (Map<i64, UserWatchView>, Seq<(i64, WatchEvent)>)
    decreases games.len(),
{
    if games.len() == 0 {
        (users, seq![])
    } else {
        let before = observe_games(users, games.drop_last(), order);
        let step = observe_all(before.0, games.last(), order);
        (step.0, before.1 + step.1)
    }
}

/// The ids of the lobbies in `games`.
pub open spec fn game_ids(games: Seq<Game>) -> Set<i64> {
    Set::new(|id: i64| exists|i: int| 0 <= i < games.len() && games[i].id == id)
}

/// A user's watch state after a tick that saw the lobbies `seen`: counts of
/// lobbies no longer listed are dropped, and so are their snapshots.
pub open spec fn cleanup_user(u: UserWatchView, seen: Set<i64>) -> UserWatchView {
    let gone = u.last_taken.dom().difference(seen);
    UserWatchView {
        last_taken: u.last_taken.remove_keys(gone),
        last_total: u.last_total.remove_keys(gone),
        explicit_games: u.explicit_games.remove_keys(u.explicit_games.dom().difference(seen)),
    }
}

/// The watch states and events of a tick over the game list `games`, with
/// the users' settings walked in the order `order`.
pub open spec fn tick_outcome(
    users: Map<i64, UserWatchView>,
    games: Seq<Game>,
    order: Seq<(i64, UserSettings)>,
) -> (Map<i64, UserWatchView>, Seq<(i64, WatchEvent)>) {
    let r = observe_games(users, games, order);
    (r.0.map_values(|u: UserWatchView| cleanup_user(u, game_ids(games))), r.1)
}

/// The entries of `settings` in the order of the user ids `uids`.
pub open spec fn settings_in_order(uids: Seq<i64>, settings: Map<i64, UserSettings>) -> Seq<(i64, UserSettings)> {
    uids.map_values(|uid: i64| (uid, settings[uid]))
}

/// The keys of `m`, each once, in the order the map yields them.
fn keys_of<V>(m: &HashMap<i64, V>) -> (r: Vec<i64>)
    ensures
        r@.no_duplicates(),
        r@.to_set() == m@.dom(),
{
    let mut r: Vec<i64> = Vec::new();
    let ghost all = vstd::std_specs::hash::spec_keys_iter(m).remaining();
    for k in it: m.keys()
        invariant
            it.seq() == all,
            r@.len() == it.index(),
            r@ == all.take(it.index()).map_values(|x: &i64| *x),
    {
        r.push(*k);
        assert(r@ =~= all.take(it.index() + 1).map_values(|x: &i64| *x));
    }
    assert(r@ =~= all.unref());
    r
}

/// Whether every difference the tick computes fits an `i32`: between two
/// listed counts of the same lobby, and between a listed count and the count
/// on record for that lobby.
pub open spec fn deltas_fit(users: Map<i64, UserWatchView>, games: Seq<Game>) -> bool {
    &&& forall|i: int, j: int|
        #![trigger games[i], games[j]]
        0 <= i < games.len() && 0 <= j < games.len() && games[i].id == games[j].id ==> fits_i32(
            games[i].slots_taken - games[j].slots_taken,
        )
    &&& forall|uid: i64, i: int|
        #![trigger users[uid].last_taken[games[i].id]]
        users.contains_key(uid) && 0 <= i < games.len() && users[uid].last_taken.contains_key(
            games[i].id,
        ) ==> fits_i32(games[i].slots_taken - users[uid].last_taken[games[i].id])
}

/// The value `m` holds for `k`, copied out.
fn get_i32(m: &HashMap<i64, i32>, k: i64) -> (r: Option<i32>)
    ensures
        r == m@.get(k),
{
    match m.get(&k) {
        Some(v) => Some(*v),
        None => None,
    }
}

/// User `uid` with settings `us` sees lobby `game`; events are appended to `out`.
fn observe_one(
    state: &mut WatchState,
    game: &Game,
    uid: i64,
    us: &UserSettings,
    out: &mut Vec<(i64, WatchEvent)>,
)
    requires
        user_of(old(state)@, uid).last_taken.contains_key(game.id) ==> fits_i32(
            game.slots_taken - user_of(old(state)@, uid).last_taken[game.id],
        ),
    ensures
        final(state)@ == observe(old(state)@, *game, uid, *us).0,
        final(out)@ == old(out)@ + observe(old(state)@, *game, uid, *us).1,
{
    let ghost users0 = state@;
    let is_nickname = follows_by_identity(us, game);
    let mut user = match state.users.remove(&uid) {
        Some(u) => u,
        None => UserWatch::default(),
    };
    assert(user@ == user_of(users0, uid));
    let is_explicit = user.explicit_games.contains_key(&game.id);
    if !is_nickname && !is_explicit {
        user.last_taken.remove(&game.id);
        user.last_total.remove(&game.id);
        state.users.insert(uid, user);
        proof {
            assert(state@ =~= observe(users0, *game, uid, *us).0);
            assert(out@ =~= old(out)@ + observe(users0, *game, uid, *us).1);
        }
        return;
    }
    let via_nickname = is_nickname && !is_explicit;
    let taken = game.slots_taken;
    let total = game.slots_total;
    let ghost u0 = user@;
    if is_explicit {
        user.explicit_games.insert(
            game.id,
            WatchedGame {
                id: game.id,
                map: game.map.clone(),
                host: game.host.clone(),
                taken,
                total,
            },
        );
    }
    let prev_taken = get_i32(&user.last_taken, game.id);
    let prev_total = get_i32(&user.last_total, game.id);
    let ghost out0 = out@;
    match (prev_taken, prev_total) {
        (None, _) => {
            out.push((uid, WatchEvent::Started { game: game.duplicate(), nickname: via_nickname }));
            if taken > 0 && taken == total {
                out.push((uid, WatchEvent::Filled { game: game.duplicate() }));
            }
        },
        (Some(pt), Some(ptot)) => {
            assert(user_of(users0, uid).last_taken.contains_key(game.id));
            assert(fits_i32(taken - pt));
            let delta = taken - pt;
            if delta != 0 {
                out.push((uid, WatchEvent::SlotsDelta { game: game.duplicate(), delta }));
            }
            if pt < ptot && taken == total && total > 0 {
                out.push((uid, WatchEvent::Filled { game: game.duplicate() }));
            }
        },
        (Some(_), None) => {},
    }
    user.last_taken.insert(game.id, taken);
    user.last_total.insert(game.id, total);
    state.users.insert(uid, user);
    proof {
        assert(out@ =~= out0 + observe_events(u0, *game, uid, via_nickname));
        assert(state@ =~= observe(users0, *game, uid, *us).0);
    }
}

proof fn lemma_take_push_contains(s: Seq<i64>, i: int, k: i64)
    requires
        0 <= i < s.len(),
    ensures
        s.take(i + 1).contains(k) == (s.take(i).contains(k) || k == s[i]),
{
    let p0 = s.take(i);
    let p1 = s.take(i + 1);
    assert(p1 =~= p0.push(s[i]));
    if p1.contains(k) {
        let j = choose|j: int| 0 <= j < p1.len() && #[trigger] p1[j] == k;
        if j < i {
            assert(p0[j] == k);
        }
    }
    if p0.contains(k) {
        let j = choose|j: int| 0 <= j < p0.len() && #[trigger] p0[j] == k;
        assert(p1[j] == k);
    }
    if k == s[i] {
        assert(p1[i] == k);
    }
}

/// The keys among the first `n` of `ks` that are not in `seen`.
pub open spec fn dropped_keys(ks: Seq<i64>, n: int, seen: Set<i64>) -> Set<i64> {
    Set::new(|k: i64| ks.take(n).contains(k) && !seen.contains(k))
}

proof fn lemma_dropped_step(ks: Seq<i64>, n: int, seen: Set<i64>)
    requires
        0 <= n < ks.len(),
    ensures
        seen.contains(ks[n]) ==> dropped_keys(ks, n + 1, seen) == dropped_keys(ks, n, seen),
        !seen.contains(ks[n]) ==> dropped_keys(ks, n + 1, seen) == dropped_keys(ks, n, seen).insert(
            ks[n],
        ),
{
    assert forall|k: i64| ks.take(n + 1).contains(k) == (ks.take(n).contains(k) || k == ks[n]) by {
        lemma_take_push_contains(ks, n, k);
    }
    if seen.contains(ks[n]) {
        assert(dropped_keys(ks, n + 1, seen) =~= dropped_keys(ks, n, seen));
    } else {
        assert forall|k: i64| #[trigger] dropped_keys(ks, n + 1, seen).contains(k) == dropped_keys(
            ks,
            n,
            seen,
        ).insert(ks[n]).contains(k) by {
            lemma_take_push_contains(ks, n, k);
        }
        assert(dropped_keys(ks, n + 1, seen) =~= dropped_keys(ks, n, seen).insert(ks[n]));
    }
}

proof fn lemma_dropped_all(ks: Seq<i64>, dom: Set<i64>, seen: Set<i64>)
    requires
        ks.to_set() == dom,
    ensures
        dropped_keys(ks, ks.len() as int, seen) == dom.difference(seen),
{
    assert(ks.take(ks.len() as int) =~= ks);
    assert forall|k: i64| ks.contains(k) == dom.contains(k) by {
        assert(ks.to_set().contains(k) == ks.contains(k));
    }
    assert(dropped_keys(ks, ks.len() as int, seen) =~= dom.difference(seen));
}

/// Drops from `u` the counts of lobbies not in `seen`, and their snapshots.
fn clean_user(u: &mut UserWatch, seen: &HashSet<i64>)
    ensures
        final(u)@ == cleanup_user(old(u)@, seen@),
{
    let ghost u0 = u@;
    let gids = keys_of(&u.last_taken);
    let mut i: usize = 0;
    while i < gids.len()
        invariant
            i <= gids.len(),
            gids@.to_set() == u0.last_taken.dom(),
            u@.explicit_games == u0.explicit_games,
            u@.last_taken == u0.last_taken.remove_keys(dropped_keys(gids@, i as int, seen@)),
            u@.last_total == u0.last_total.remove_keys(dropped_keys(gids@, i as int, seen@)),
        decreases gids.len() - i,
    {
        let gid = gids[i];
        proof {
            lemma_dropped_step(gids@, i as int, seen@);
        }
        let ghost before = dropped_keys(gids@, i as int, seen@);
        if !seen.contains(&gid) {
            u.last_taken.remove(&gid);
            u.last_total.remove(&gid);
            assert(u@.last_taken =~= u0.last_taken.remove_keys(before.insert(gid)));
            assert(u@.last_total =~= u0.last_total.remove_keys(before.insert(gid)));
        }
        i = i + 1;
    }
    proof {
        lemma_dropped_all(gids@, u0.last_taken.dom(), seen@);
    }
    let eids = keys_of(&u.explicit_games);
    let mut j: usize = 0;
    while j < eids.len()
        invariant
            j <= eids.len(),
            eids@.to_set() == u0.explicit_games.dom(),
            u@.last_taken == cleanup_user(u0, seen@).last_taken,
            u@.last_total == cleanup_user(u0, seen@).last_total,
            u@.explicit_games == u0.explicit_games.remove_keys(
                dropped_keys(eids@, j as int, seen@),
            ),
        decreases eids.len() - j,
    {
        let gid = eids[j];
        proof {
            lemma_dropped_step(eids@, j as int, seen@);
        }
        let ghost before = dropped_keys(eids@, j as int, seen@);
        if !seen.contains(&gid) {
            u.explicit_games.remove(&gid);
            assert(u@.explicit_games =~= u0.explicit_games.remove_keys(before.insert(gid)));
        }
        j = j + 1;
    }
    proof {
        lemma_dropped_all(eids@, u0.explicit_games.dom(), seen@);
    }
    assert(u@ =~= cleanup_user(u0, seen@));
}

/// Cleans every user's state after a tick that saw the lobbies `seen`.
fn clean_all(state: &mut WatchState, seen: &HashSet<i64>)
    ensures
        final(state)@ == old(state)@.map_values(|u: UserWatchView| cleanup_user(u, seen@)),
{
    let ghost s0 = state@;
    let uids = keys_of(&state.users);
    let mut i: usize = 0;
    while i < uids.len()
        invariant
            i <= uids.len(),
            uids@.no_duplicates(),
            uids@.to_set() == s0.dom(),
            state@.dom() == s0.dom(),
            forall|k: i64| #[trigger]
                s0.contains_key(k) ==> state@[k] == if uids@.take(i as int).contains(k) {
                    cleanup_user(s0[k], seen@)
                } else {
                    s0[k]
                },
        decreases uids.len() - i,
    {
        let uid = uids[i];
        assert(uids@.to_set().contains(uid));
        assert(!uids@.take(i as int).contains(uid)) by {
            if uids@.take(i as int).contains(uid) {
                let j = choose|j: int| 0 <= j < i && #[trigger] uids@.take(i as int)[j] == uid;
                assert(uids@[j] == uids@[i as int]);
            }
        }
        let ghost before = state@;
        let mut u = match state.users.remove(&uid) {
            Some(u) => u,
            None => UserWatch::default(),
        };
        assert(u@ == s0[uid]);
        clean_user(&mut u, seen);
        state.users.insert(uid, u);
        assert forall|k: i64| #[trigger] s0.contains_key(k) implies state@[k] == if uids@.take(
            i + 1,
        ).contains(k) {
            cleanup_user(s0[k], seen@)
        } else {
            s0[k]
        } by {
            lemma_take_push_contains(uids@, i as int, k);
            if k != uid {
                assert(state@[k] == before[k]);
            }
        }
        assert(state@.dom() =~= s0.dom());
        i = i + 1;
    }
    assert(uids@.take(uids@.len() as int) =~= uids@);
    assert forall|k: i64| s0.contains_key(k) implies uids@.contains(k) by {
        assert(uids@.to_set().contains(k));
    }
    assert(state@ =~= s0.map_values(|u: UserWatchView| cleanup_user(u, seen@)));
}

/// Seeing lobby `g` (one of `games`) keeps every recorded count comparable
/// with every lobby of `games`.
proof fn lemma_observe_keeps_fit(
    users: Map<i64, UserWatchView>,
    g: Game,
    uid: i64,
    us: UserSettings,
    games: Seq<Game>,
    gi: int,
)
    requires
        deltas_fit(users, games),
        0 <= gi < games.len(),
        games[gi] == g,
    ensures
        deltas_fit(observe(users, g, uid, us).0, games),
{
    let after = observe(users, g, uid, us).0;
    assert forall|u2: i64, i: int|
        #![trigger after[u2].last_taken[games[i].id]]
        after.contains_key(u2) && 0 <= i < games.len() && after[u2].last_taken.contains_key(
            games[i].id,
        ) implies fits_i32(games[i].slots_taken - after[u2].last_taken[games[i].id]) by {
        let gid = games[i].id;
        if u2 == uid && gid == g.id {
            if after[u2].last_taken[gid] == g.slots_taken {
                assert(games[gi].id == games[i].id);
                assert(fits_i32(games[i].slots_taken - games[gi].slots_taken));
            }
        } else if u2 == uid {
            assert(users.contains_key(uid));
            assert(after[u2].last_taken[gid] == users[uid].last_taken[gid]);
        } else {
            assert(after[u2] == users[u2]);
        }
    }
}

/// Computes the watch events of one tick. `current_games` is the freshly
/// fetched game list, `settings` the users' monitoring settings. `state` is
/// updated in place so the next tick can compute deltas: for each lobby, in
/// list order, each user (in the order the settings map yields them) who
/// follows it explicitly or by identity gets `Started` on first sight,
/// `SlotsDelta` when the player count changed, `Filled` when it just filled
/// up; explicit follows take priority over identity ones. Afterwards every
/// user's counts and snapshots of lobbies no longer listed are dropped.
pub fn tick(state: &mut WatchState, current_games: &[Game], settings: &HashMap<i64, UserSettings>) -> (out:
    Vec<(i64, WatchEvent)>)
    requires
        deltas_fit(old(state)@, current_games@),
    ensures
        exists|uids: Seq<i64>|
            {
                &&& uids.no_duplicates()
                &&& uids.to_set() == settings@.dom()
                &&& final(state)@ == tick_outcome(
                    old(state)@,
                    current_games@,
                    settings_in_order(uids, settings@),
                ).0
                &&& out@ == tick_outcome(
                    old(state)@,
                    current_games@,
                    settings_in_order(uids, settings@),
                ).1
            },
{
    let ghost games = current_games@;
    let ghost s0 = state@;
    let uids = keys_of(settings);
    let ghost order = settings_in_order(uids@, settings@);
    let mut out: Vec<(i64, WatchEvent)> = Vec::new();
    let mut seen_ids: HashSet<i64> = HashSet::new();
    let mut gi: usize = 0;
    assert(games.take(0) =~= Seq::<Game>::empty());
    assert(seen_ids@ =~= game_ids(games.take(0)));
    while gi < current_games.len()
        invariant
            gi <= games.len(),
            games == current_games@,
            uids@.to_set() == settings@.dom(),
            order == settings_in_order(uids@, settings@),
            deltas_fit(state@, games),
            state@ == observe_games(s0, games.take(gi as int), order).0,
            out@ == observe_games(s0, games.take(gi as int), order).1,
            seen_ids@ == game_ids(games.take(gi as int)),
        decreases games.len() - gi,
    {
        let game = &current_games[gi];
        seen_ids.insert(game.id);
        let ghost start = state@;
        let ghost out_start = out@;
        let mut ui: usize = 0;
        assert(order.take(0) =~= Seq::<(i64, UserSettings)>::empty());
        assert(out@ =~= out_start + Seq::<(i64, WatchEvent)>::empty());
        while ui < uids.len()
            invariant
                gi < games.len(),
                games == current_games@,
                *game == games[gi as int],
                ui <= uids.len(),
                uids@.to_set() == settings@.dom(),
                order == settings_in_order(uids@, settings@),
                deltas_fit(state@, games),
                state@ == observe_all(start, *game, order.take(ui as int)).0,
                out@ == out_start + observe_all(start, *game, order.take(ui as int)).1,
            decreases uids.len() - ui,
        {
            let uid = uids[ui];
            assert(uids@.to_set().contains(uid));
            let us = match settings.get(&uid) {
                Some(v) => v,
                None => {
                    assert(false);
                    return out;
                },
            };
            assert(order[ui as int] == (uid, *us));
            assert(order.take(ui + 1).drop_last() =~= order.take(ui as int));
            assert(user_of(state@, uid).last_taken.contains_key(game.id) ==> fits_i32(
                game.slots_taken - user_of(state@, uid).last_taken[game.id],
            )) by {
                if user_of(state@, uid).last_taken.contains_key(game.id) {
                    assert(state@.contains_key(uid));
                    assert(games[gi as int] == *game);
                    assert(state@[uid].last_taken[games[gi as int].id] == state@[uid].last_taken[game.id]);
                }
            }
            let ghost mid_out = out@;
            proof {
                lemma_observe_keeps_fit(state@, *game, uid, *us, games, gi as int);
            }
            observe_one(state, game, uid, us, &mut out);
            assert(out@ =~= out_start + observe_all(start, *game, order.take(ui + 1)).1);
            ui = ui + 1;
        }
        assert(order.take(uids@.len() as int) =~= order);
        assert(games.take(gi + 1).drop_last() =~= games.take(gi as int));
        assert(games.take(gi + 1).last() == *game);
        assert(out@ =~= observe_games(s0, games.take(gi + 1), order).1);
        assert forall|id: i64| #[trigger] game_ids(games.take(gi + 1)).contains(id) == game_ids(
            games.take(gi as int),
        ).insert(game.id).contains(id) by {
            if game_ids(games.take(gi + 1)).contains(id) {
                let j = choose|j: int| 0 <= j < gi + 1 && #[trigger] games.take(gi + 1)[j].id == id;
                if j < gi {
                    assert(games.take(gi as int)[j].id == id);
                }
            }
            if game_ids(games.take(gi as int)).contains(id) {
                let j = choose|j: int| 0 <= j < gi && #[trigger] games.take(gi as int)[j].id == id;
                assert(games.take(gi + 1)[j].id == id);
            }
            if id == game.id {
                assert(games.take(gi + 1)[gi as int].id == id);
            }
        }
        assert(seen_ids@ =~= game_ids(games.take(gi + 1)));
        gi = gi + 1;
    }
    assert(games.take(games.len() as int) =~= games);
    clean_all(state, &seen_ids);
    out
}

// ---------------------------------------------------------------------------
// Laws
// ---------------------------------------------------------------------------

/// A lobby whose player counts have not changed since the last tick causes no
/// event; in particular a full lobby is announced as filled only once.
pub proof fn law_unchanged_lobby_is_quiet(u: UserWatchView, g: Game, uid: i64, nickname: bool)
    requires
        u.last_taken.contains_key(g.id),
        u.last_total.contains_key(g.id),
        u.last_taken[g.id] == g.slots_taken,
        u.last_total[g.id] == g.slots_total,
    ensures
        observe_events(u, g, uid, nickname) == Seq::<(i64, WatchEvent)>::empty(),
{
    assert(observe_events(u, g, uid, nickname) =~= Seq::<(i64, WatchEvent)>::empty());
}

/// A user who follows a lobby neither explicitly nor by identity is told
/// nothing about it, and keeps no counts for it.
pub proof fn law_uninterested_user_is_told_nothing(
    users: Map<i64, UserWatchView>,
    g: Game,
    uid: i64,
    us: UserSettings,
)
    requires
        !nickname_interest(us, g),
        !user_of(users, uid).explicit_games.contains_key(g.id),
    ensures
        observe(users, g, uid, us).1 == Seq::<(i64, WatchEvent)>::empty(),
        !observe(users, g, uid, us).0[uid].last_taken.contains_key(g.id),
        !observe(users, g, uid, us).0[uid].last_total.contains_key(g.id),
{
}

/// An explicit follow takes priority: a lobby the user follows explicitly is
/// never announced as followed by identity.
pub proof fn law_explicit_follow_has_priority(
    users: Map<i64, UserWatchView>,
    g: Game,
    uid: i64,
    us: UserSettings,
)
    requires
        user_of(users, uid).explicit_games.contains_key(g.id),
    ensures
        forall|i: int|
            0 <= i < observe(users, g, uid, us).1.len() ==> !(#[trigger] observe(
                users,
                g,
                uid,
                us,
            ).1[i].1 matches WatchEvent::Started { nickname: true, .. }),
{
}

/// The first sight of a followed lobby is announced with `Started`, and the
/// counts are recorded.
pub proof fn law_first_sight_is_started(
    users: Map<i64, UserWatchView>,
    g: Game,
    uid: i64,
    us: UserSettings,
)
    requires
        nickname_interest(us, g) || user_of(users, uid).explicit_games.contains_key(g.id),
        !user_of(users, uid).last_taken.contains_key(g.id),
    ensures
        observe(users, g, uid, us).1.len() >= 1,
        observe(users, g, uid, us).1[0].0 == uid,
        observe(users, g, uid, us).1[0].1 matches WatchEvent::Started { game, .. } && game == g,
        observe(users, g, uid, us).0[uid].last_taken[g.id] == g.slots_taken,
        observe(users, g, uid, us).0[uid].last_total[g.id] == g.slots_total,
{
}

/// After a tick, every user keeps counts and snapshots only of lobbies in
/// the game list of that tick.
pub proof fn law_tick_forgets_unlisted_lobbies(
    users: Map<i64, UserWatchView>,
    games: Seq<Game>,
    order: Seq<(i64, UserSettings)>,
    uid: i64,
    gid: i64,
)
    requires
        tick_outcome(users, games, order).0.contains_key(uid),
        !game_ids(games).contains(gid),
    ensures
        !tick_outcome(users, games, order).0[uid].last_taken.contains_key(gid),
        !tick_outcome(users, games, order).0[uid].explicit_games.contains_key(gid),
{
}

/// The Watch button is shown exactly when the user does not already follow
/// the lobby by identity.
pub proof fn law_watch_button_complements_identity_follow(settings: UserSettings, game: Game)
    ensures
        (settings.watched_identity is None || !settings.monitoring_enabled) ==> !nickname_interest(
            settings,
            game,
        ),
{
}


/// Whether every user's tables of player counts and totals have the same keys.
pub open spec fn tables_agree(users: Map<i64, UserWatchView>) -> bool {
    forall|u: i64| #[trigger] users.contains_key(u) ==> users[u].last_taken.dom() == users[u].last_total.dom()
}

proof fn lemma_observe_tables(users: Map<i64, UserWatchView>, g: Game, uid: i64, us: UserSettings)
    requires
        tables_agree(users),
    ensures
        tables_agree(observe(users, g, uid, us).0),
        forall|u: i64| #[trigger] user_of(observe(users, g, uid, us).0, u).explicit_games.dom()
            == user_of(users, u).explicit_games.dom(),
{
    let after = observe(users, g, uid, us).0;
    let v = user_of(users, uid);
    assert(v.last_taken.dom() == v.last_total.dom());
    assert(after[uid].last_taken.dom() =~= after[uid].last_total.dom());
    assert(after[uid].explicit_games.dom() =~= v.explicit_games.dom());
    assert forall|u: i64| #[trigger] after.contains_key(u) implies after[u].last_taken.dom()
        == after[u].last_total.dom() by {
        if u != uid {
            assert(after[u] == users[u]);
        }
    }
    assert forall|u: i64| #[trigger] user_of(after, u).explicit_games.dom() == user_of(
        users,
        u,
    ).explicit_games.dom() by {
        if u != uid {
            assert(user_of(after, u) == user_of(users, u));
        }
    }
}

proof fn lemma_observe_all_tables(users: Map<i64, UserWatchView>, g: Game, order: Seq<(i64, UserSettings)>)
    requires
        tables_agree(users),
    ensures
        tables_agree(observe_all(users, g, order).0),
        forall|u: i64| #[trigger] user_of(observe_all(users, g, order).0, u).explicit_games.dom()
            == user_of(users, u).explicit_games.dom(),
    decreases order.len(),
{
    if order.len() > 0 {
        let before = observe_all(users, g, order.drop_last()).0;
        lemma_observe_all_tables(users, g, order.drop_last());
        lemma_observe_tables(before, g, order.last().0, order.last().1);
        assert forall|u: i64| #[trigger] user_of(observe_all(users, g, order).0, u).explicit_games.dom()
            == user_of(users, u).explicit_games.dom() by {
            assert(user_of(before, u).explicit_games.dom() == user_of(users, u).explicit_games.dom());
        }
    }
}

proof fn lemma_observe_games_tables(
    users: Map<i64, UserWatchView>,
    games: Seq<Game>,
    order: Seq<(i64, UserSettings)>,
)
    requires
        tables_agree(users),
    ensures
        tables_agree(observe_games(users, games, order).0),
        forall|u: i64| #[trigger] user_of(observe_games(users, games, order).0, u).explicit_games.dom()
            == user_of(users, u).explicit_games.dom(),
    decreases games.len(),
{
    if games.len() > 0 {
        let before = observe_games(users, games.drop_last(), order).0;
        lemma_observe_games_tables(users, games.drop_last(), order);
        lemma_observe_all_tables(before, games.last(), order);
        assert forall|u: i64| #[trigger] user_of(observe_games(users, games, order).0, u).explicit_games.dom()
            == user_of(users, u).explicit_games.dom() by {
            assert(user_of(before, u).explicit_games.dom() == user_of(users, u).explicit_games.dom());
        }
    }
}

/// After a tick, every user's tables of player counts and of totals have the
/// same keys, and those are lobbies of the tick's list; the lobbies a user
/// follows explicitly are ones followed before that are still listed.
pub proof fn law_tick_tables_hold_current_lobbies(
    users: Map<i64, UserWatchView>,
    games: Seq<Game>,
    order: Seq<(i64, UserSettings)>,
    u: i64,
)
    requires
        tables_agree(users),
        tick_outcome(users, games, order).0.contains_key(u),
    ensures
        ({
            let r = tick_outcome(users, games, order).0[u];
            &&& r.last_taken.dom() == r.last_total.dom()
            &&& r.last_taken.dom().subset_of(game_ids(games))
            &&& r.explicit_games.dom().subset_of(
                user_of(users, u).explicit_games.dom().intersect(game_ids(games)),
            )
        }),
{
    let obs = observe_games(users, games, order).0;
    lemma_observe_games_tables(users, games, order);
    assert(obs.contains_key(u));
    assert(obs[u].last_taken.dom() == obs[u].last_total.dom());
    assert(user_of(obs, u) == obs[u]);
    assert(user_of(obs, u).explicit_games.dom() == user_of(users, u).explicit_games.dom());
    let r = tick_outcome(users, games, order).0[u];
    assert(r == cleanup_user(obs[u], game_ids(games)));
    assert(r.last_taken.dom() =~= r.last_total.dom());
}


/// What a user's watch state holds for lobby `gid`: its player count, its
/// total and its snapshot, each if any.
pub open spec fn entry_at(users: Map<i64, UserWatchView>, u: i64, gid: i64) -> (
    Option<i32>,
    Option<i32>,
    Option<WatchedGame>,
) {
    let v = user_of(users, u);
    (v.last_taken.get(gid), v.last_total.get(gid), v.explicit_games.get(gid))
}

/// What a user's watch state holds for lobby `g` right after seeing it:
/// nothing unless the user follows it (`nick` by identity, `exp` explicitly);
/// else its counts, and its snapshot when followed explicitly.
pub open spec fn seen_entry(g: Game, nick: bool, exp: bool) -> (Option<i32>, Option<i32>, Option<WatchedGame>) {
    if nick || exp {
        (
            Some(g.slots_taken),
            Some(g.slots_total),
            if exp {
                Some(snapshot(g))
            } else {
                None
            },
        )
    } else {
        (None, None, None)
    }
}

/// The user ids of `order`, in order.
pub open spec fn uids_of(order: Seq<(i64, UserSettings)>) -> Seq<i64> {
    order.map_values(|p: (i64, UserSettings)| p.0)
}

proof fn lemma_observe_other(users: Map<i64, UserWatchView>, g: Game, uid: i64, us: UserSettings, u: i64, gid: i64)
    requires
        u != uid || gid != g.id,
    ensures
        entry_at(observe(users, g, uid, us).0, u, gid) == entry_at(users, u, gid),
        users.contains_key(u) ==> observe(users, g, uid, us).0.contains_key(u),
{
    let after = observe(users, g, uid, us).0;
    if u != uid {
        assert(user_of(after, u) == user_of(users, u));
    } else {
        let v = user_of(users, uid);
        let w = user_of(after, uid);
        assert(w.last_taken.get(gid) == v.last_taken.get(gid));
        assert(w.last_total.get(gid) == v.last_total.get(gid));
        assert(w.explicit_games.get(gid) == v.explicit_games.get(gid));
    }
}

proof fn lemma_observe_self(users: Map<i64, UserWatchView>, g: Game, u: i64, us: UserSettings)
    ensures
        entry_at(observe(users, g, u, us).0, u, g.id) == seen_entry(
            g,
            nickname_interest(us, g),
            user_of(users, u).explicit_games.contains_key(g.id),
        ),
        observe(users, g, u, us).0.contains_key(u),
{
    let after = observe(users, g, u, us).0;
    assert(user_of(after, u) == after[u]);
}

proof fn lemma_observe_all_other(users: Map<i64, UserWatchView>, g: Game, order: Seq<(i64, UserSettings)>, u: i64, gid: i64)
    requires
        gid != g.id || !uids_of(order).contains(u),
    ensures
        entry_at(observe_all(users, g, order).0, u, gid) == entry_at(users, u, gid),
        users.contains_key(u) ==> observe_all(users, g, order).0.contains_key(u),
    decreases order.len(),
{
    if order.len() > 0 {
        let p = order.drop_last();
        if uids_of(p).contains(u) {
            let j = choose|j: int| 0 <= j < uids_of(p).len() && uids_of(p)[j] == u;
            assert(uids_of(order)[j] == u);
        }
        lemma_observe_all_other(users, g, p, u, gid);
        if gid == g.id {
            assert(uids_of(order)[order.len() - 1] == order.last().0);
        }
        lemma_observe_other(observe_all(users, g, p).0, g, order.last().0, order.last().1, u, gid);
    }
}

proof fn lemma_observe_all_self(
    users: Map<i64, UserWatchView>,
    g: Game,
    order: Seq<(i64, UserSettings)>,
    k: int,
)
    requires
        0 <= k < order.len(),
        uids_of(order).no_duplicates(),
    ensures
        entry_at(observe_all(users, g, order).0, order[k].0, g.id) == seen_entry(
            g,
            nickname_interest(order[k].1, g),
            user_of(users, order[k].0).explicit_games.contains_key(g.id),
        ),
        observe_all(users, g, order).0.contains_key(order[k].0),
    decreases order.len(),
{
    let u = order[k].0;
    let p = order.drop_last();
    let n = order.len() - 1;
    assert(uids_of(p) =~= uids_of(order).drop_last());
    assert(uids_of(p).no_duplicates());
    let before = observe_all(users, g, p).0;
    if k == n {
        assert(!uids_of(p).contains(u)) by {
            if uids_of(p).contains(u) {
                let j = choose|j: int| 0 <= j < uids_of(p).len() && uids_of(p)[j] == u;
                assert(uids_of(order)[j] == uids_of(order)[n]);
            }
        }
        lemma_observe_all_other(users, g, p, u, g.id);
        assert(user_of(before, u).explicit_games.contains_key(g.id) == user_of(users, u).explicit_games.contains_key(g.id)) by {
            assert(entry_at(before, u, g.id).2 == entry_at(users, u, g.id).2);
        }
        lemma_observe_self(before, g, u, order[k].1);
    } else {
        assert(p[k] == order[k]);
        lemma_observe_all_self(users, g, p, k);
        assert(uids_of(order)[k] == u && uids_of(order)[n] == order.last().0);
        lemma_observe_other(before, g, order.last().0, order.last().1, u, g.id);
    }
}

proof fn lemma_observe_games_other(
    users: Map<i64, UserWatchView>,
    games: Seq<Game>,
    order: Seq<(i64, UserSettings)>,
    u: i64,
    gid: i64,
)
    requires
        forall|j: int| 0 <= j < games.len() ==> games[j].id != gid,
    ensures
        entry_at(observe_games(users, games, order).0, u, gid) == entry_at(users, u, gid),
    decreases games.len(),
{
    if games.len() > 0 {
        let p = games.drop_last();
        assert(forall|j: int| 0 <= j < p.len() ==> p[j] == games[j]);
        lemma_observe_games_other(users, p, order, u, gid);
        lemma_observe_all_other(observe_games(users, p, order).0, games.last(), order, u, gid);
    }
}

proof fn lemma_observe_games_self(
    users: Map<i64, UserWatchView>,
    games: Seq<Game>,
    order: Seq<(i64, UserSettings)>,
    k: int,
    i: int,
)
    requires
        0 <= k < order.len(),
        uids_of(order).no_duplicates(),
        0 <= i < games.len(),
        forall|a: int, b: int| 0 <= a < games.len() && 0 <= b < games.len() && games[a].id == games[b].id ==> a == b,
    ensures
        entry_at(observe_games(users, games, order).0, order[k].0, games[i].id) == seen_entry(
            games[i],
            nickname_interest(order[k].1, games[i]),
            user_of(users, order[k].0).explicit_games.contains_key(games[i].id),
        ),
        observe_games(users, games, order).0.contains_key(order[k].0),
    decreases games.len(),
{
    let u = order[k].0;
    let g = games[i];
    let p = games.drop_last();
    let n = games.len() - 1;
    let before = observe_games(users, p, order).0;
    if i == n {
        assert forall|j: int| 0 <= j < p.len() implies p[j].id != g.id by {
            assert(p[j] == games[j]);
        }
        lemma_observe_games_other(users, p, order, u, g.id);
        assert(user_of(before, u).explicit_games.contains_key(g.id) == user_of(users, u).explicit_games.contains_key(g.id)) by {
            assert(entry_at(before, u, g.id).2 == entry_at(users, u, g.id).2);
        }
        lemma_observe_all_self(before, g, order, k);
    } else {
        assert(p[i] == g);
        assert forall|a: int, b: int| 0 <= a < p.len() && 0 <= b < p.len() && p[a].id == p[b].id implies a == b by {
            assert(p[a] == games[a] && p[b] == games[b]);
        }
        lemma_observe_games_self(users, p, order, k, i);
        assert(games.last().id != g.id);
        lemma_observe_all_other(before, games.last(), order, u, g.id);
    }
}

/// After a tick over a list whose lobby ids differ, for each user of the
/// settings and each listed lobby: the user's counts hold the lobby exactly
/// when the user follows it (by identity or explicitly), and then hold its
/// current player count and total; its snapshot is kept exactly when the user
/// followed it explicitly before, and then shows the lobby as now listed.
pub proof fn law_tick_records_followed_lobbies(
    users: Map<i64, UserWatchView>,
    games: Seq<Game>,
    order: Seq<(i64, UserSettings)>,
    k: int,
    i: int,
)
    requires
        0 <= k < order.len(),
        uids_of(order).no_duplicates(),
        0 <= i < games.len(),
        forall|a: int, b: int| 0 <= a < games.len() && 0 <= b < games.len() && games[a].id == games[b].id ==> a == b,
    ensures
        ({
            let u = order[k].0;
            let g = games[i];
            let nick = nickname_interest(order[k].1, g);
            let exp = user_of(users, u).explicit_games.contains_key(g.id);
            let r = tick_outcome(users, games, order).0;
            &&& r.contains_key(u)
            &&& r[u].last_taken.contains_key(g.id) == (nick || exp)
            &&& r[u].last_total.contains_key(g.id) == (nick || exp)
            &&& (nick || exp) ==> r[u].last_taken[g.id] == g.slots_taken && r[u].last_total[g.id]
                == g.slots_total
            &&& r[u].explicit_games.contains_key(g.id) == exp
            &&& exp ==> r[u].explicit_games[g.id] == snapshot(g)
        }),
{
    let u = order[k].0;
    let g = games[i];
    let obs = observe_games(users, games, order).0;
    lemma_observe_games_self(users, games, order, k, i);
    assert(user_of(obs, u) == obs[u]);
    let seen = game_ids(games);
    assert(seen.contains(g.id));
    let r = tick_outcome(users, games, order).0;
    assert(r[u] == cleanup_user(obs[u], seen));
    let e = entry_at(obs, u, g.id);
    assert(r[u].last_taken.contains_key(g.id) == obs[u].last_taken.contains_key(g.id));
    assert(r[u].last_total.contains_key(g.id) == obs[u].last_total.contains_key(g.id));
    assert(r[u].explicit_games.contains_key(g.id) == obs[u].explicit_games.contains_key(g.id));
    if obs[u].last_taken.contains_key(g.id) {
        assert(r[u].last_taken[g.id] == obs[u].last_taken[g.id]);
    }
    if obs[u].last_total.contains_key(g.id) {
        assert(r[u].last_total[g.id] == obs[u].last_total[g.id]);
    }
    if obs[u].explicit_games.contains_key(g.id) {
        assert(r[u].explicit_games[g.id] == obs[u].explicit_games[g.id]);
    }
}

/// A lobby on record whose player count changed is reported with the change:
/// the events hold `SlotsDelta` with the current count minus the recorded one,
/// whatever its sign or size (a single player leaving included). Every
/// `SlotsDelta` among them carries the lobby as listed and that same nonzero
/// change, so an unchanged count is never reported as a change.
pub proof fn law_count_change_is_reported(u: UserWatchView, g: Game, uid: i64, nickname: bool)
    requires
        u.last_taken.contains_key(g.id),
        u.last_total.contains_key(g.id),
        fits_i32(g.slots_taken - u.last_taken[g.id]),
    ensures
        g.slots_taken != u.last_taken[g.id] ==> observe_events(u, g, uid, nickname).contains(
            (uid, WatchEvent::SlotsDelta { game: g, delta: (g.slots_taken - u.last_taken[g.id]) as i32 }),
        ),
        forall|i: int|
            0 <= i < observe_events(u, g, uid, nickname).len() ==> ((#[trigger] observe_events(
                u,
                g,
                uid,
                nickname,
            )[i]).1 matches WatchEvent::SlotsDelta { game: gg, delta } ==> gg == g && delta
                == g.slots_taken - u.last_taken[g.id] && delta != 0),
{
    let ev = observe_events(u, g, uid, nickname);
    if g.slots_taken != u.last_taken[g.id] {
        assert(ev[0] == (uid, WatchEvent::SlotsDelta { game: g, delta: (g.slots_taken - u.last_taken[g.id]) as i32 }));
    }
}

proof fn lemma_observe_events_by_entry(
    a: Map<i64, UserWatchView>,
    b: Map<i64, UserWatchView>,
    g: Game,
    u: i64,
    us: UserSettings,
)
    requires
        entry_at(a, u, g.id) == entry_at(b, u, g.id),
    ensures
        observe(a, g, u, us).1 == observe(b, g, u, us).1,
{
    let x = user_of(a, u);
    let y = user_of(b, u);
    assert(x.last_taken.contains_key(g.id) == y.last_taken.contains_key(g.id));
    assert(x.last_total.contains_key(g.id) == y.last_total.contains_key(g.id));
    assert(x.explicit_games.contains_key(g.id) == y.explicit_games.contains_key(g.id));
    if x.last_taken.contains_key(g.id) {
        assert(x.last_taken[g.id] == y.last_taken[g.id]);
    }
    if x.last_total.contains_key(g.id) {
        assert(x.last_total[g.id] == y.last_total[g.id]);
    }
}

proof fn lemma_observe_all_reports(
    users: Map<i64, UserWatchView>,
    g: Game,
    order: Seq<(i64, UserSettings)>,
    k: int,
    e: (i64, WatchEvent),
)
    requires
        0 <= k < order.len(),
        uids_of(order).no_duplicates(),
        observe(users, g, order[k].0, order[k].1).1.contains(e),
    ensures
        observe_all(users, g, order).1.contains(e),
    decreases order.len(),
{
    let u = order[k].0;
    let p = order.drop_last();
    let n = order.len() - 1;
    assert(uids_of(p) =~= uids_of(order).drop_last());
    let before = observe_all(users, g, p);
    let step = observe(before.0, g, order.last().0, order.last().1);
    let all = observe_all(users, g, order).1;
    assert(all == before.1 + step.1);
    if k == n {
        assert(!uids_of(p).contains(u)) by {
            if uids_of(p).contains(u) {
                let j = choose|j: int| 0 <= j < uids_of(p).len() && uids_of(p)[j] == u;
                assert(uids_of(order)[j] == uids_of(order)[n]);
            }
        }
        lemma_observe_all_other(users, g, p, u, g.id);
        lemma_observe_events_by_entry(before.0, users, g, u, order[k].1);
        let j = choose|j: int| 0 <= j < step.1.len() && step.1[j] == e;
        assert(all[before.1.len() + j] == e);
    } else {
        assert(p[k] == order[k]);
        lemma_observe_all_reports(users, g, p, k, e);
        let j = choose|j: int| 0 <= j < before.1.len() && before.1[j] == e;
        assert(all[j] == e);
    }
}

proof fn lemma_observe_games_reports(
    users: Map<i64, UserWatchView>,
    games: Seq<Game>,
    order: Seq<(i64, UserSettings)>,
    k: int,
    i: int,
    e: (i64, WatchEvent),
)
    requires
        0 <= k < order.len(),
        uids_of(order).no_duplicates(),
        0 <= i < games.len(),
        forall|a: int, b: int| 0 <= a < games.len() && 0 <= b < games.len() && games[a].id == games[b].id ==> a == b,
        observe(users, games[i], order[k].0, order[k].1).1.contains(e),
    ensures
        observe_games(users, games, order).1.contains(e),
    decreases games.len(),
{
    let u = order[k].0;
    let g = games[i];
    let p = games.drop_last();
    let n = games.len() - 1;
    let before = observe_games(users, p, order);
    let step = observe_all(before.0, games.last(), order);
    let all = observe_games(users, games, order).1;
    assert(all == before.1 + step.1);
    if i == n {
        assert forall|j: int| 0 <= j < p.len() implies p[j].id != g.id by {
            assert(p[j] == games[j]);
        }
        lemma_observe_games_other(users, p, order, u, g.id);
        lemma_observe_events_by_entry(before.0, users, g, u, order[k].1);
        lemma_observe_all_reports(before.0, g, order, k, e);
        let j = choose|j: int| 0 <= j < step.1.len() && step.1[j] == e;
        assert(all[before.1.len() + j] == e);
    } else {
        assert(p[i] == g);
        assert forall|a: int, b: int| 0 <= a < p.len() && 0 <= b < p.len() && p[a].id == p[b].id implies a == b by {
            assert(p[a] == games[a] && p[b] == games[b]);
        }
        lemma_observe_games_reports(users, p, order, k, i, e);
        let j = choose|j: int| 0 <= j < before.1.len() && before.1[j] == e;
        assert(all[j] == e);
    }
}

/// In a tick over a list whose lobby ids differ, a user of the settings who
/// follows a listed lobby (by identity or explicitly) that is on record with
/// another player count is told of the change: the tick's events hold
/// `SlotsDelta` for that user and lobby, with the current count minus the
/// recorded one, players leaving included.
pub proof fn law_tick_reports_count_changes(
    users: Map<i64, UserWatchView>,
    games: Seq<Game>,
    order: Seq<(i64, UserSettings)>,
    k: int,
    i: int,
)
    requires
        0 <= k < order.len(),
        uids_of(order).no_duplicates(),
        0 <= i < games.len(),
        forall|a: int, b: int| 0 <= a < games.len() && 0 <= b < games.len() && games[a].id == games[b].id ==> a == b,
        nickname_interest(order[k].1, games[i]) || user_of(users, order[k].0).explicit_games.contains_key(
            games[i].id,
        ),
        user_of(users, order[k].0).last_taken.contains_key(games[i].id),
        user_of(users, order[k].0).last_total.contains_key(games[i].id),
        user_of(users, order[k].0).last_taken[games[i].id] != games[i].slots_taken,
        fits_i32(games[i].slots_taken - user_of(users, order[k].0).last_taken[games[i].id]),
    ensures
        tick_outcome(users, games, order).1.contains(
            (
                order[k].0,
                WatchEvent::SlotsDelta {
                    game: games[i],
                    delta: (games[i].slots_taken - user_of(users, order[k].0).last_taken[games[i].id]) as i32,
                },
            ),
        ),
{
    let u = order[k].0;
    let g = games[i];
    let v = user_of(users, u);
    let e = (u, WatchEvent::SlotsDelta { game: g, delta: (g.slots_taken - v.last_taken[g.id]) as i32 });
    let nick = nickname_interest(order[k].1, g);
    let exp = v.explicit_games.contains_key(g.id);
    law_count_change_is_reported(v, g, u, nick && !exp);
    assert(observe(users, g, u, order[k].1).1 == observe_events(v, g, u, nick && !exp));
    lemma_observe_games_reports(users, games, order, k, i, e);
}

} // verus!
