//! The decisions of the lobby poller: which lobbies in a fresh game list are
//! new, which subscriptions a new lobby notifies, and what becomes of the
//! notification messages that follow lobbies. Fetching the list and talking
//! to Telegram happens outside this crate.
//!
//! A subscription mode that would hold a lobby back until enough players
//! joined, or send extra alerts when they did, is not here: the items it
//! needs (the mode, its thresholds, its texts, the test of a lobby against
//! them) are nowhere defined, so there is no behaviour to decide.
use vstd::prelude::*;
use std::collections::HashSet;
use crate::api::{texts_of, Game};
use crate::clock::clock_secs;
use crate::loc::Lang;
use crate::pinger::{age_at, age_secs, pinger_final_msg, pinger_final_text_of, pinger_msg_at, pinger_text_of};
use crate::db::{notify_decision, should_notify, ActiveSub};
use crate::watcher::game_ids;

verus! {

broadcast use vstd::std_specs::hash::group_hash_axioms;

/// How many lobby ids the poller remembers before it starts over from the
/// current list.
pub const SEEN_LIMIT: usize = 100_000;

/// The positions of the lobbies in `games` whose id is neither in `seen` nor
/// at an earlier position: the lobbies to announce, in list order.
pub open spec fn fresh_indices(seen: Set<i64>, games: Seq<Game>) -> Seq<int>
    decreases games.len(),
{
    if games.len() == 0 {
        Seq::empty()
    } else {
        let pre = games.drop_last();
        fresh_indices(seen, pre) + if seen.union(game_ids(pre)).contains(games.last().id) {
            Seq::empty()
        } else {
            seq![games.len() - 1]
        }
    }
}

/// Marks the lobbies of `games` as seen and gives the positions of those not
/// seen before (a repeated id counts once, at its first position).
pub fn take_new_games(seen: &mut HashSet<i64>, games: &[Game]) -> (r: Vec<usize>)
    ensures
        final(seen)@ == old(seen)@.union(game_ids(games@)),
        r@.map_values(|i: usize| i as int) == fresh_indices(old(seen)@, games@),
{
    let ghost start = seen@;
    let mut r: Vec<usize> = Vec::new();
    let mut i: usize = 0;
    while i < games.len()
        invariant
            i <= games.len(),
            seen@ == start.union(game_ids(games@.take(i as int))),
            r@.map_values(|k: usize| k as int) == fresh_indices(start, games@.take(i as int)),
        decreases games.len() - i,
    {
        let ghost pre = games@.take(i as int);
        let ghost next = games@.take(i + 1);
        assert(next.drop_last() =~= pre);
        assert(next.last() == games@[i as int]);
        assert(game_ids(next) =~= game_ids(pre).insert(games@[i as int].id)) by {
            assert forall|id: i64| game_ids(next).contains(id) implies game_ids(pre).insert(
                games@[i as int].id,
            ).contains(id) by {
                let j = choose|j: int| 0 <= j < next.len() && next[j].id == id;
                if j < i {
                    assert(pre[j] == next[j]);
                }
            }
            assert forall|id: i64| game_ids(pre).insert(games@[i as int].id).contains(id) implies game_ids(
                next,
            ).contains(id) by {
                if id != games@[i as int].id {
                    let j = choose|j: int| 0 <= j < pre.len() && pre[j].id == id;
                    assert(next[j] == pre[j]);
                } else {
                    assert(next[i as int].id == id);
                }
            }
        }
        let fresh = seen.insert(games[i].id);
        if fresh {
            r.push(i);
            assert(r@.map_values(|k: usize| k as int) =~= fresh_indices(start, pre).push(i as int));
        } else {
            assert(fresh_indices(start, pre) + Seq::<int>::empty() =~= fresh_indices(start, pre));
        }
        assert(fresh_indices(start, next) == fresh_indices(start, pre) + if start.union(
            game_ids(pre),
        ).contains(next.last().id) {
            Seq::<int>::empty()
        } else {
            seq![next.len() - 1]
        });
        i = i + 1;
    }
    assert(games@.take(games.len() as int) =~= games@);
    r
}

/// Empties `seen` and fills it with the ids of `games`.
pub fn reset_seen(seen: &mut HashSet<i64>, games: &[Game])
    ensures
        final(seen)@ == game_ids(games@),
{
    seen.clear();
    let _ = take_new_games(seen, games);
    assert(Set::<i64>::empty().union(game_ids(games@)) =~= game_ids(games@));
}

/// A subscription as the poller weighs it against a new lobby, with what the
/// database says of it: whether its selector is muted, its host filter, and
/// whether its user's notification window is open now.
pub struct Candidate {
    pub active: ActiveSub,
    pub muted: bool,
    pub filter_mode: String,
    pub filter_hosts: Vec<String>,
    pub window_open: bool,
}

/// Whether candidate `c` is notified about lobby `g`.
pub open spec fn notifies(c: Candidate, g: Game) -> bool {
    c.window_open && notify_decision(
        c.active.sub,
        c.muted,
        c.filter_mode@,
        c.filter_hosts@,
        g.map@,
        g.host@,
        g.name@,
    )
}

/// The positions of the candidates notified about `g`, in order.
pub open spec fn notified_indices(cands: Seq<Candidate>, g: Game) -> Seq<int>
    decreases cands.len(),
{
    if cands.len() == 0 {
        Seq::empty()
    } else {
        notified_indices(cands.drop_last(), g) + if notifies(cands.last(), g) {
            seq![cands.len() - 1]
        } else {
            Seq::empty()
        }
    }
}

/// The positions of the candidates that lobby `game` notifies: those whose
/// notification window is open and whose subscription the lobby triggers.
pub fn notification_targets(game: &Game, candidates: &Vec<Candidate>) -> (r: Vec<usize>)
    ensures
        r@.map_values(|i: usize| i as int) == notified_indices(candidates@, *game),
{
    let mut r: Vec<usize> = Vec::new();
    let mut i: usize = 0;
    while i < candidates.len()
        invariant
            i <= candidates.len(),
            r@.map_values(|k: usize| k as int) == notified_indices(candidates@.take(i as int), *game),
        decreases candidates.len() - i,
    {
        let c = &candidates[i];
        let ghost pre = candidates@.take(i as int);
        let ghost next = candidates@.take(i + 1);
        assert(next.drop_last() =~= pre);
        assert(next.last() == *c);
        let hit = c.window_open && should_notify(
            &c.active.sub,
            c.muted,
            c.filter_mode.as_str(),
            &c.filter_hosts,
            game.map.as_str(),
            game.host.as_str(),
            game.name.as_str(),
        );
        if hit {
            r.push(i);
            assert(r@.map_values(|k: usize| k as int) =~= notified_indices(pre, *game).push(i as int));
        } else {
            assert(notified_indices(pre, *game) + Seq::<int>::empty() =~= notified_indices(pre, *game));
        }
        i = i + 1;
    }
    assert(candidates@.take(candidates.len() as int) =~= candidates@);
    r
}

/// The picked positions increase, and each holds an id that is neither seen
/// nor at an earlier position.
proof fn lemma_fresh_positions(seen: Set<i64>, games: Seq<Game>)
    ensures
        ({
            let r = fresh_indices(seen, games);
            &&& forall|k: int| 0 <= k < r.len() ==> 0 <= #[trigger] r[k] < games.len()
            &&& forall|k1: int, k2: int| 0 <= k1 < k2 < r.len() ==> #[trigger] r[k1] < #[trigger] r[k2]
            &&& forall|k: int|
                0 <= k < r.len() ==> !seen.union(game_ids(games.take(#[trigger] r[k]))).contains(
                    games[r[k]].id,
                )
        }),
    decreases games.len(),
{
    if games.len() > 0 {
        let pre = games.drop_last();
        let n = games.len() - 1;
        lemma_fresh_positions(seen, pre);
        let rp = fresh_indices(seen, pre);
        let r = fresh_indices(seen, games);
        assert forall|k: int| 0 <= k < rp.len() implies games.take(#[trigger] rp[k]) == pre.take(rp[k])
            && games[rp[k]] == pre[rp[k]] by {
            assert(games.take(rp[k]) =~= pre.take(rp[k]));
        }
        if !seen.union(game_ids(pre)).contains(games.last().id) {
            assert(r == rp.push(n));
            assert(games.take(n) =~= pre);
        } else {
            assert(r =~= rp);
        }
    }
}

/// A listed id that was not seen is picked at some position.
proof fn lemma_fresh_has(seen: Set<i64>, games: Seq<Game>, j: int)
    requires
        0 <= j < games.len(),
        !seen.contains(games[j].id),
    ensures
        exists|k: int|
            0 <= k < fresh_indices(seen, games).len() && games[#[trigger] fresh_indices(
                seen,
                games,
            )[k]].id == games[j].id,
    decreases games.len(),
{
    let pre = games.drop_last();
    let n = games.len() - 1;
    let rp = fresh_indices(seen, pre);
    let r = fresh_indices(seen, games);
    lemma_fresh_positions(seen, pre);
    let fresh_last = !seen.union(game_ids(pre)).contains(games.last().id);
    if fresh_last {
        assert(r == rp.push(n));
    } else {
        assert(r =~= rp);
    }
    if j == n && fresh_last {
        assert(r[rp.len() as int] == n);
    } else {
        let m = if j < n {
            j
        } else {
            choose|m: int| 0 <= m < pre.len() && pre[m].id == games.last().id
        };
        assert(pre[m] == games[m]);
        lemma_fresh_has(seen, pre, m);
        let k = choose|k: int| 0 <= k < rp.len() && pre[#[trigger] rp[k]].id == pre[m].id;
        assert(r[k] == rp[k]);
        assert(games[rp[k]] == pre[rp[k]]);
    }
}

/// Two picked positions hold different ids.
proof fn lemma_fresh_distinct(seen: Set<i64>, games: Seq<Game>, k1: int, k2: int)
    requires
        0 <= k1 < k2 < fresh_indices(seen, games).len(),
    ensures
        games[fresh_indices(seen, games)[k1]].id != games[fresh_indices(seen, games)[k2]].id,
{
    let r = fresh_indices(seen, games);
    lemma_fresh_positions(seen, games);
    assert(r[k1] < r[k2]);
    assert(!seen.union(game_ids(games.take(r[k2]))).contains(games[r[k2]].id));
    let t = games.take(r[k2]);
    assert(t[r[k1]] == games[r[k1]]);
    assert(game_ids(t).contains(t[r[k1]].id));
}

/// Each lobby is announced at most once: the positions `take_new_games` picks
/// hold ids that were not seen before and differ from one another, and every
/// id not seen before is among them. Once the list's ids are seen, the same
/// list announces nothing.
pub proof fn law_lobbies_announced_once(seen: Set<i64>, games: Seq<Game>)
    ensures
        ({
            let r = fresh_indices(seen, games);
            &&& forall|k: int| 0 <= k < r.len() ==> 0 <= #[trigger] r[k] < games.len() && !seen.contains(
                games[r[k]].id,
            )
            &&& forall|k1: int, k2: int|
                0 <= k1 < k2 < r.len() ==> games[#[trigger] r[k1]].id != games[#[trigger] r[k2]].id
            &&& forall|j: int|
                0 <= j < games.len() && !seen.contains(#[trigger] games[j].id) ==> exists|k: int|
                    0 <= k < r.len() && games[r[k]].id == games[j].id
        }),
        fresh_indices(seen.union(game_ids(games)), games).len() == 0,
{
    let r = fresh_indices(seen, games);
    lemma_fresh_positions(seen, games);
    assert forall|k: int| 0 <= k < r.len() implies 0 <= #[trigger] r[k] < games.len() && !seen.contains(
        games[r[k]].id,
    ) by {}
    assert forall|k1: int, k2: int| 0 <= k1 < k2 < r.len() implies games[#[trigger] r[k1]].id
        != games[#[trigger] r[k2]].id by {
        lemma_fresh_distinct(seen, games, k1, k2);
    }
    assert forall|j: int| 0 <= j < games.len() && !seen.contains(#[trigger] games[j].id) implies exists|
        k: int,
    | 0 <= k < r.len() && games[r[k]].id == games[j].id by {
        lemma_fresh_has(seen, games, j);
    }
    lemma_fresh_empty_once_seen(seen.union(game_ids(games)), games);
}

/// Once every listed id is seen, the list announces nothing.
proof fn lemma_fresh_empty_once_seen(seen: Set<i64>, games: Seq<Game>)
    requires
        game_ids(games).subset_of(seen),
    ensures
        fresh_indices(seen, games).len() == 0,
    decreases games.len(),
{
    if games.len() > 0 {
        let pre = games.drop_last();
        assert(game_ids(pre).subset_of(seen)) by {
            assert forall|id: i64| game_ids(pre).contains(id) implies seen.contains(id) by {
                let j = choose|j: int| 0 <= j < pre.len() && pre[j].id == id;
                assert(games[j] == pre[j]);
            }
        }
        lemma_fresh_empty_once_seen(seen, pre);
        assert(game_ids(games).contains(games.last().id));
    }
}

/// A notification message that follows a lobby: where it was sent, the lobby
/// as last seen, the language and the subscription it was sent for.
pub struct TrackedGame {
    pub chat_id: i64,
    pub message_id: i32,
    pub game: Game,
    pub lang: Lang,
    pub sub_kind: String,
    pub sub_pattern: String,
}

/// The messages that follow lobbies, in the order they were sent.
pub struct Tracker {
    pub entries: Vec<TrackedGame>,
}

/// Whether the message of `e` is among the `deleted` (chat, message) pairs.
pub open spec fn is_deleted(e: TrackedGame, deleted: Seq<(i64, i32)>) -> bool {
    deleted.contains((e.chat_id, e.message_id))
}

/// The entries whose message was not deleted, in order.
pub open spec fn undeleted(es: Seq<TrackedGame>, deleted: Seq<(i64, i32)>) -> Seq<TrackedGame>
    decreases es.len(),
{
    if es.len() == 0 {
        Seq::empty()
    } else {
        undeleted(es.drop_last(), deleted) + if is_deleted(es.last(), deleted) {
            Seq::empty()
        } else {
            seq![es.last()]
        }
    }
}

/// The first lobby of `games` with id `id`.
pub open spec fn first_game(games: Seq<Game>, id: i64) -> Option<Game>
    decreases games.len(),
{
    if games.len() == 0 {
        None
    } else {
        match first_game(games.drop_last(), id) {
            Some(g) => Some(g),
            None => if games.last().id == id {
                Some(games.last())
            } else {
                None
            },
        }
    }
}

/// When the lobby of the first entry that follows lobby `id` was created.
pub open spec fn first_created(es: Seq<TrackedGame>, id: i64) -> i64
    decreases es.len(),
{
    if es.len() == 0 {
        0
    } else if exists|k: int| 0 <= k < es.len() - 1 && es[k].game.id == id {
        first_created(es.drop_last(), id)
    } else if es.last().game.id == id {
        es.last().game.created
    } else {
        0
    }
}

/// The entries whose lobby is still listed, each holding the lobby as now listed.
pub open spec fn still_listed(es: Seq<TrackedGame>, games: Seq<Game>) -> Seq<TrackedGame>
    decreases es.len(),
{
    if es.len() == 0 {
        Seq::empty()
    } else {
        let e = es.last();
        still_listed(es.drop_last(), games) + match first_game(games, e.game.id) {
            Some(g) => seq![
                TrackedGame {
                    chat_id: e.chat_id,
                    message_id: e.message_id,
                    game: g,
                    lang: e.lang,
                    sub_kind: e.sub_kind,
                    sub_pattern: e.sub_pattern,
                },
            ],
            None => Seq::empty(),
        }
    }
}

/// A change to a message that follows a lobby: its new text and lobby, and
/// whether the lobby has started, after which the message is left alone.
pub struct Edit {
    pub chat_id: i64,
    pub message_id: i32,
    pub lang: Lang,
    pub sub_kind: String,
    pub sub_pattern: String,
    pub game: Game,
    pub text: String,
    pub finished: bool,
}

/// Whether `ed` is the change to the message of `e` at time `now`, among the
/// entries `es`, for the listed lobbies `games`: a lobby still listed gets the
/// live text with its age; one no longer listed has started, and gets the final
/// text with the wait measured from the creation of the lobby of the first
/// entry that followed it.
pub open spec fn edit_is(
    ed: Edit,
    e: TrackedGame,
    es: Seq<TrackedGame>,
    games: Seq<Game>,
    now: u64,
) -> bool {
    &&& ed.chat_id == e.chat_id
    &&& ed.message_id == e.message_id
    &&& ed.lang == e.lang
    &&& ed.sub_kind@ == e.sub_kind@
    &&& ed.sub_pattern@ == e.sub_pattern@
    &&& match first_game(games, e.game.id) {
        Some(g) => !ed.finished && ed.game == g && ed.text@ == pinger_text_of(
            g,
            texts_of(e.lang),
            age_secs(now, g.created) as nat,
        ),
        None => ed.finished && ed.game == e.game && ed.text@ == pinger_final_text_of(
            e.game,
            texts_of(e.lang),
            age_secs(now, first_created(es, e.game.id)) as nat,
        ),
    }
}

/// Whether `eds` are the changes at time `now` to the messages of `es`, one
/// for each, in the same order.
pub open spec fn edits_are(eds: Seq<Edit>, es: Seq<TrackedGame>, games: Seq<Game>, now: u64) -> bool {
    eds.len() == es.len() && forall|i: int| 0 <= i < eds.len() ==> edit_is(#[trigger] eds[i], es[i], es, games, now)
}

/// The position of the first lobby of `games` with id `id`.
fn find_game(games: &[Game], id: i64) -> (r: Option<usize>)
    ensures
        match r {
            Some(k) => k < games@.len() && first_game(games@, id) == Some(games@[k as int]),
            None => first_game(games@, id) is None,
        },
{
    let mut i: usize = 0;
    while i < games.len()
        invariant
            i <= games.len(),
            first_game(games@.take(i as int), id) is None,
        decreases games.len() - i,
    {
        let ghost next = games@.take(i + 1);
        assert(next.drop_last() =~= games@.take(i as int));
        if games[i].id == id {
            proof {
                lemma_first_game_prefix(games@, i as int + 1, id);
            }
            return Some(i);
        }
        i = i + 1;
    }
    assert(games@.take(games.len() as int) =~= games@);
    None
}

/// A lobby found in a prefix is the first one in the whole list.
proof fn lemma_first_game_prefix(games: Seq<Game>, n: int, id: i64)
    requires
        0 <= n <= games.len(),
        first_game(games.take(n), id) is Some,
    ensures
        first_game(games, id) == first_game(games.take(n), id),
    decreases games.len() - n,
{
    if n < games.len() {
        let next = games.take(n + 1);
        assert(next.drop_last() =~= games.take(n));
        lemma_first_game_prefix(games, n + 1, id);
    } else {
        assert(games.take(n) =~= games);
    }
}

/// When the lobby of the first entry following lobby `id` was created.
fn find_created(es: &Vec<TrackedGame>, id: i64) -> (r: i64)
    ensures
        r == first_created(es@, id),
{
    let mut i: usize = 0;
    while i < es.len()
        invariant
            i <= es.len(),
            forall|k: int| 0 <= k < i ==> es@[k].game.id != id,
        decreases es.len() - i,
    {
        if es[i].game.id == id {
            proof {
                lemma_first_created_at(es@, i as int, id);
            }
            return es[i].game.created;
        }
        i = i + 1;
    }
    proof {
        lemma_first_created_none(es@, id);
    }
    0
}

proof fn lemma_first_created_at(es: Seq<TrackedGame>, i: int, id: i64)
    requires
        0 <= i < es.len(),
        es[i].game.id == id,
        forall|k: int| 0 <= k < i ==> es[k].game.id != id,
    ensures
        first_created(es, id) == es[i].game.created,
    decreases es.len(),
{
    if i < es.len() - 1 {
        let pre = es.drop_last();
        assert(pre[i] == es[i]);
        assert(forall|k: int| 0 <= k < i ==> pre[k] == es[k]);
        lemma_first_created_at(pre, i, id);
    } else {
        assert(!exists|k: int| 0 <= k < es.len() - 1 && es[k].game.id == id);
    }
}

proof fn lemma_first_created_none(es: Seq<TrackedGame>, id: i64)
    requires
        forall|k: int| 0 <= k < es.len() ==> es[k].game.id != id,
    ensures
        first_created(es, id) == 0,
    decreases es.len(),
{
    if es.len() > 0 {
        let pre = es.drop_last();
        assert(forall|k: int| 0 <= k < pre.len() ==> pre[k] == es[k]);
        lemma_first_created_none(pre, id);
    }
}

impl Tracker {
    /// No message follows any lobby.
    pub fn new() -> (r: Tracker)
        ensures
            r.entries@.len() == 0,
    {
        Tracker { entries: Vec::new() }
    }

    /// Starts following a lobby with a message just sent.
    pub fn track(&mut self, entry: TrackedGame)
        ensures
            final(self).entries@ == old(self).entries@.push(entry),
    {
        self.entries.push(entry);
    }

    /// Whether any message follows lobby `game_id`.
    pub fn is_tracked(&self, game_id: i64) -> (r: bool)
        ensures
            r == exists|k: int| 0 <= k < self.entries@.len() && self.entries@[k].game.id == game_id,
    {
        let mut i: usize = 0;
        while i < self.entries.len()
            invariant
                i <= self.entries.len(),
                forall|k: int| 0 <= k < i ==> self.entries@[k].game.id != game_id,
            decreases self.entries.len() - i,
        {
            if self.entries[i].game.id == game_id {
                return true;
            }
            i = i + 1;
        }
        false
    }

    /// Stops following the messages the user deleted (given as chat and message ids).
    pub fn drop_deleted(&mut self, deleted: &Vec<(i64, i32)>)
        ensures
            final(self).entries@ == undeleted(old(self).entries@, deleted@),
    {
        let ghost es = self.entries@;
        let mut kept: Vec<TrackedGame> = Vec::new();
        let mut i: usize = 0;
        while i < self.entries.len()
            invariant
                self.entries@ == es,
                i <= es.len(),
                kept@ == undeleted(es.take(i as int), deleted@),
            decreases es.len() - i,
        {
            let e = &self.entries[i];
            let ghost pre = es.take(i as int);
            let ghost next = es.take(i + 1);
            assert(next.drop_last() =~= pre);
            assert(next.last() == *e);
            let mut hit = false;
            let mut d: usize = 0;
            while d < deleted.len()
                invariant
                    d <= deleted.len(),
                    hit == exists|x: int| 0 <= x < d && deleted@[x] == (e.chat_id, e.message_id),
                decreases deleted.len() - d,
            {
                if deleted[d].0 == e.chat_id && deleted[d].1 == e.message_id {
                    hit = true;
                }
                d = d + 1;
            }
            if !hit {
                kept.push(e.duplicate());
                assert(kept@ =~= undeleted(pre, deleted@).push(next.last()));
            } else {
                assert(undeleted(pre, deleted@) + Seq::<TrackedGame>::empty() =~= undeleted(
                    pre,
                    deleted@,
                ));
            }
            i = i + 1;
        }
        assert(es.take(es.len() as int) =~= es);
        self.entries = kept;
    }
}

impl Tracker {
    /// Brings the messages up to date with the lobbies `games` listed at time
    /// `now`: a lobby still listed gets its live text, and one no longer
    /// listed gets its final text and is no longer followed.
    pub fn sweep(&mut self, games: &[Game], now: u64) -> (out: Vec<Edit>)
        ensures
            final(self).entries@ == still_listed(old(self).entries@, games@),
            out@.len() == old(self).entries@.len(),
            edits_are(out@, old(self).entries@, games@, now),
    {
        let ghost es = self.entries@;
        let mut kept: Vec<TrackedGame> = Vec::new();
        let mut out: Vec<Edit> = Vec::new();
        let mut i: usize = 0;
        while i < self.entries.len()
            invariant
                self.entries@ == es,
                i <= es.len(),
                kept@ == still_listed(es.take(i as int), games@),
                out@.len() == i,
                forall|k: int| 0 <= k < i ==> edit_is(#[trigger] out@[k], es[k], es, games@, now),
            decreases es.len() - i,
        {
            let e = &self.entries[i];
            let ghost pre = es.take(i as int);
            let ghost next = es.take(i + 1);
            assert(next.drop_last() =~= pre);
            assert(next.last() == *e);
            match find_game(games, e.game.id) {
                Some(k) => {
                    let cur = &games[k];
                    let text = pinger_msg_at(cur, age_at(now, cur.created), e.lang);
                    out.push(
                        Edit {
                            chat_id: e.chat_id,
                            message_id: e.message_id,
                            lang: e.lang,
                            sub_kind: e.sub_kind.clone(),
                            sub_pattern: e.sub_pattern.clone(),
                            game: cur.duplicate(),
                            text,
                            finished: false,
                        },
                    );
                    kept.push(
                        TrackedGame {
                            chat_id: e.chat_id,
                            message_id: e.message_id,
                            game: cur.duplicate(),
                            lang: e.lang,
                            sub_kind: e.sub_kind.clone(),
                            sub_pattern: e.sub_pattern.clone(),
                        },
                    );
                    assert(kept@ =~= still_listed(next, games@));
                },
                None => {
                    let created = find_created(&self.entries, e.game.id);
                    let text = pinger_final_msg(&e.game, age_at(now, created), e.lang);
                    out.push(
                        Edit {
                            chat_id: e.chat_id,
                            message_id: e.message_id,
                            lang: e.lang,
                            sub_kind: e.sub_kind.clone(),
                            sub_pattern: e.sub_pattern.clone(),
                            game: e.game.duplicate(),
                            text,
                            finished: true,
                        },
                    );
                    assert(kept@ =~= still_listed(next, games@));
                },
            }
            i = i + 1;
        }
        assert(es.take(es.len() as int) =~= es);
        self.entries = kept;
        out
    }

    /// `sweep` at the time the system clock shows (zero before the epoch).
    pub fn sweep_now(&mut self, games: &[Game]) -> (out: Vec<Edit>)
        ensures
            final(self).entries@ == still_listed(old(self).entries@, games@),
            out@.len() == old(self).entries@.len(),
            exists|now: u64| #[trigger] edits_are(out@, old(self).entries@, games@, now),
    {
        let now = match clock_secs() {
            Some(s) => s,
            None => 0,
        };
        self.sweep(games, now)
    }
}

impl TrackedGame {
    /// A copy of the entry, equal to it field by field.
    pub fn duplicate(&self) -> (r: TrackedGame)
        ensures
            r == *self,
    {
        TrackedGame {
            chat_id: self.chat_id,
            message_id: self.message_id,
            game: self.game.duplicate(),
            lang: self.lang,
            sub_kind: self.sub_kind.clone(),
            sub_pattern: self.sub_pattern.clone(),
        }
    }
}

/// The lobby `first_game` finds has the id it was asked for.
proof fn lemma_first_game_id(games: Seq<Game>, id: i64)
    ensures
        first_game(games, id) matches Some(g) ==> g.id == id,
    decreases games.len(),
{
    if games.len() > 0 {
        lemma_first_game_id(games.drop_last(), id);
    }
}

/// After a sweep, every message still followed follows a listed lobby and
/// holds that lobby as listed; a lobby that left the list is never followed
/// again. Each entry kept is an entry from before, with its chat, message,
/// language and subscription unchanged.
pub proof fn law_sweep_follows_only_listed(es: Seq<TrackedGame>, games: Seq<Game>)
    ensures
        forall|k: int|
            0 <= k < still_listed(es, games).len() ==> first_game(
                games,
                (#[trigger] still_listed(es, games)[k]).game.id,
            ) == Some(still_listed(es, games)[k].game),
        forall|k: int|
            0 <= k < still_listed(es, games).len() ==> exists|j: int|
                0 <= j < es.len() && #[trigger] still_listed(es, games)[k].chat_id == es[j].chat_id
                    && still_listed(es, games)[k].message_id == es[j].message_id && still_listed(
                    es,
                    games,
                )[k].lang == es[j].lang && still_listed(es, games)[k].sub_kind == es[j].sub_kind
                    && still_listed(es, games)[k].sub_pattern == es[j].sub_pattern,
    decreases es.len(),
{
    if es.len() > 0 {
        let pre = es.drop_last();
        law_sweep_follows_only_listed(pre, games);
        let sp = still_listed(pre, games);
        let s = still_listed(es, games);
        let e = es.last();
        lemma_first_game_id(games, e.game.id);
        assert forall|k: int| 0 <= k < sp.len() implies s[k] == sp[k] by {}
        assert forall|k: int| 0 <= k < s.len() implies exists|j: int|
            0 <= j < es.len() && #[trigger] s[k].chat_id == es[j].chat_id && s[k].message_id
                == es[j].message_id && s[k].lang == es[j].lang && s[k].sub_kind == es[j].sub_kind
                && s[k].sub_pattern == es[j].sub_pattern by {
            if k < sp.len() {
                let j = choose|j: int|
                    0 <= j < pre.len() && #[trigger] sp[k].chat_id == pre[j].chat_id
                        && sp[k].message_id == pre[j].message_id && sp[k].lang == pre[j].lang
                        && sp[k].sub_kind == pre[j].sub_kind && sp[k].sub_pattern
                        == pre[j].sub_pattern;
                assert(es[j] == pre[j]);
            } else {
                assert(s[k].chat_id == es[es.len() - 1].chat_id);
            }
        }
    }
}

/// After dropping deleted messages, none of the deleted ones is followed, and
/// every message followed was followed before.
pub proof fn law_deleted_messages_are_dropped(es: Seq<TrackedGame>, deleted: Seq<(i64, i32)>)
    ensures
        forall|k: int|
            0 <= k < undeleted(es, deleted).len() ==> !is_deleted(
                #[trigger] undeleted(es, deleted)[k],
                deleted,
            ) && es.contains(undeleted(es, deleted)[k]),
    decreases es.len(),
{
    if es.len() > 0 {
        let pre = es.drop_last();
        law_deleted_messages_are_dropped(pre, deleted);
        let u = undeleted(es, deleted);
        let up = undeleted(pre, deleted);
        assert forall|k: int| 0 <= k < u.len() implies !is_deleted(#[trigger] u[k], deleted)
            && es.contains(u[k]) by {
            if k < up.len() {
                assert(u[k] == up[k]);
                let j = choose|j: int| 0 <= j < pre.len() && pre[j] == up[k];
                assert(es[j] == pre[j]);
            } else {
                assert(u[k] == es[es.len() - 1]);
            }
        }
    }
}

/// Whether entry `e`'s own message, its chat and message id together, is not
/// among the `deleted` pairs.
pub open spec fn pair_kept(deleted: Seq<(i64, i32)>) -> spec_fn(TrackedGame) -> bool {
    |e: TrackedGame| !deleted.contains((e.chat_id, e.message_id))
}

/// Dropping deleted messages keeps, in their order, exactly the entries whose
/// own (chat, message) pair was not deleted: an entry stays when another chat's
/// message with the same message id was deleted, and goes when its own was.
pub proof fn law_drop_goes_by_chat_and_message(es: Seq<TrackedGame>, deleted: Seq<(i64, i32)>)
    ensures
        undeleted(es, deleted) == es.filter(pair_kept(deleted)),
        forall|k: int|
            0 <= k < es.len() ==> (undeleted(es, deleted).contains(#[trigger] es[k]) <==> !deleted.contains(
                (es[k].chat_id, es[k].message_id),
            )),
    decreases es.len(),
{
    reveal(Seq::filter);
    let f = pair_kept(deleted);
    if es.len() > 0 {
        let pre = es.drop_last();
        law_drop_goes_by_chat_and_message(pre, deleted);
        assert(undeleted(es, deleted) =~= es.filter(f));
    }
    let u = es.filter(f);
    assert forall|k: int|
        0 <= k < es.len() implies (u.contains(#[trigger] es[k]) <==> !deleted.contains(
            (es[k].chat_id, es[k].message_id),
        )) by {
        if f(es[k]) {
            es.lemma_filter_contains(f, k);
        }
        if u.contains(es[k]) {
            let j = choose|j: int| 0 <= j < u.len() && u[j] == es[k];
            es.lemma_filter_pred(f, j);
        }
    }
}

/// The ids seen after starting from `seen` and taking the lists `lists` in
/// turn, as `take_new_games` does on each.
pub open spec fn seen_after(seen: Set<i64>, lists: Seq<Seq<Game>>) -> Set<i64>
    decreases lists.len(),
{
    if lists.len() == 0 {
        seen
    } else {
        seen_after(seen, lists.drop_last()).union(game_ids(lists.last()))
    }
}

/// Whether lobby `id` is announced when list `k` of `lists` is taken, the
/// lists before it having been taken in turn from `seen`.
pub open spec fn announced_in(seen: Set<i64>, lists: Seq<Seq<Game>>, k: int, id: i64) -> bool {
    let r = fresh_indices(seen_after(seen, lists.take(k)), lists[k]);
    exists|j: int| 0 <= j < r.len() && lists[k][r[j]].id == id
}

/// Every id listed before list `b` is seen by the time list `b` is taken.
proof fn lemma_seen_covers_earlier(seen: Set<i64>, lists: Seq<Seq<Game>>, a: int, b: int)
    requires
        0 <= a < b <= lists.len(),
    ensures
        game_ids(lists[a]).subset_of(seen_after(seen, lists.take(b))),
    decreases b - a,
{
    let tb = lists.take(b);
    assert(tb.drop_last() =~= lists.take(b - 1));
    assert(tb.last() == lists[b - 1]);
    if a < b - 1 {
        lemma_seen_covers_earlier(seen, lists, a, b - 1);
    }
}

/// Over a whole run, no lobby listed in the seed is announced, and no lobby is
/// announced twice: when two lists of the run announce the same id, they are
/// the same list.
pub proof fn law_run_announces_each_lobby_once(
    seed: Seq<Game>,
    lists: Seq<Seq<Game>>,
    k1: int,
    k2: int,
    id: i64,
)
    requires
        0 <= k1 < lists.len(),
        0 <= k2 < lists.len(),
        announced_in(game_ids(seed), lists, k1, id),
    ensures
        !game_ids(seed).contains(id),
        announced_in(game_ids(seed), lists, k2, id) ==> k1 == k2,
{
    let seen = game_ids(seed);
    let base = seen_after(seen, lists.take(k1));
    lemma_seen_contains_seed(seen, lists.take(k1));
    law_lobbies_announced_once(base, lists[k1]);
    if announced_in(seen, lists, k2, id) && k1 != k2 {
        let (lo, hi) = if k1 < k2 {
            (k1, k2)
        } else {
            (k2, k1)
        };
        let r_lo = fresh_indices(seen_after(seen, lists.take(lo)), lists[lo]);
        let j = choose|j: int| 0 <= j < r_lo.len() && lists[lo][r_lo[j]].id == id;
        law_lobbies_announced_once(seen_after(seen, lists.take(lo)), lists[lo]);
        assert(game_ids(lists[lo]).contains(id));
        lemma_seen_covers_earlier(seen, lists, lo, hi);
        let r_hi = fresh_indices(seen_after(seen, lists.take(hi)), lists[hi]);
        law_lobbies_announced_once(seen_after(seen, lists.take(hi)), lists[hi]);
        let j2 = choose|j2: int| 0 <= j2 < r_hi.len() && lists[hi][r_hi[j2]].id == id;
        assert(!seen_after(seen, lists.take(hi)).contains(lists[hi][r_hi[j2]].id));
    }
}

/// The ids seen after a run include the ones it started from.
proof fn lemma_seen_contains_seed(seen: Set<i64>, lists: Seq<Seq<Game>>)
    ensures
        seen.subset_of(seen_after(seen, lists)),
    decreases lists.len(),
{
    if lists.len() > 0 {
        lemma_seen_contains_seed(seen, lists.drop_last());
    }
}

/// The candidates a lobby notifies are picked once each, in order.
pub proof fn law_targets_once_each(cands: Seq<Candidate>, g: Game)
    ensures
        forall|j: int|
            0 <= j < notified_indices(cands, g).len() ==> 0 <= #[trigger] notified_indices(cands, g)[j]
                < cands.len(),
        forall|j1: int, j2: int|
            0 <= j1 < j2 < notified_indices(cands, g).len() ==> #[trigger] notified_indices(cands, g)[j1]
                < #[trigger] notified_indices(cands, g)[j2],
    decreases cands.len(),
{
    if cands.len() > 0 {
        let p = cands.drop_last();
        law_targets_once_each(p, g);
        let rp = notified_indices(p, g);
        let r = notified_indices(cands, g);
        assert forall|j: int| 0 <= j < rp.len() implies r[j] == rp[j] && rp[j] < cands.len() - 1 by {}
        if notifies(cands.last(), g) {
            assert(r == rp.push(cands.len() - 1));
        } else {
            assert(r =~= rp);
        }
    }
}

} // verus!
