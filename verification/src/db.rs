//! The records the bot stores per user and per subscription, and the
//! decisions it takes on them: whether a lobby triggers a subscription,
//! what a host filter lets through, when a snooze ends, whether quiet hours
//! hold. Reading and writing the database happens outside this crate; these
//! functions get the stored values as arguments.
use vstd::prelude::*;
use crate::clock::clock_secs;
use crate::norm::pattern_matches;
use crate::quiet::{in_window, is_in_notification_window, minute_of_day, shift_fits};
use crate::text::{chars_eq, chars_of};

verus! {

/// Subscription kind: the lobby's map name.
pub const KIND_MAP: &'static str = "map";

/// Subscription kind: the lobby's host.
pub const KIND_HOST: &'static str = "host";

/// Subscription kind: the lobby's game name.
pub const KIND_NAME: &'static str = "name";

/// Host filter mode: every host passes.
pub const HF_OFF: &'static str = "off";

/// Host filter mode: only listed hosts pass.
pub const HF_WHITELIST: &'static str = "whitelist";

/// Host filter mode: listed hosts are blocked.
pub const HF_BLACKLIST: &'static str = "blacklist";

/// How long a snooze lasts, in seconds (12 hours).
pub const SNOOZE_SECS: i64 = 43200;

/// A user's quiet-hours setting: a notification window `[start_min, end_min)`
/// in local minutes, for a user `tz_offset_min` minutes ahead of UTC.
#[derive(Debug, Clone, Copy)]
pub struct QuietHours {
    pub tz_offset_min: i32,
    pub start_min: i32,
    pub end_min: i32,
}

/// A per-subscription notification suppression. `until == None` means forever.
#[derive(Debug, Clone)]
pub struct MapMute {
    pub kind: String,
    pub pattern: String,
    pub until: Option<i64>,
}

/// A subscription: notify `chat_id` about lobbies whose `kind` field contains `pattern`.
#[derive(Debug, Clone)]
pub struct Sub {
    pub id: i64,
    pub chat_id: i64,
    pub kind: String,
    pub pattern: String,
    pub enabled: bool,
    pub host_filter: String,
}

/// An enabled subscription of a user who has notifications on.
pub struct ActiveSub {
    pub chat_id: i64,
    pub sub: Sub,
}

/// A user's lobby-monitoring settings: the host identity (`Name#1234`) whose
/// lobbies they follow, and whether following by that identity is on.
#[derive(Debug, Clone)]
pub struct UserSettings {
    pub user_id: i64,
    pub watched_identity: Option<String>,
    pub monitoring_enabled: bool,
}

/// Whether two strings hold the same characters.
pub fn str_eq(a: &str, b: &str) -> (r: bool)
    ensures
        r == (a@ == b@),
{
    let x = chars_of(a);
    let y = chars_of(b);
    chars_eq(&x, &y)
}

/// The timestamp a clock reading gives: its seconds as an `i64`,
/// zero when the clock stands before the epoch.
pub open spec fn timestamp_of(reading: Option<u64>) -> i64 {
    match reading {
        Some(s) => s as i64,
        None => 0,
    }
}

/// The timestamp for a clock reading.
pub fn timestamp_from_clock(reading: Option<u64>) -> (r: i64)
    ensures
        r == timestamp_of(reading),
{
    match reading {
        Some(s) => s as i64,
        None => 0,
    }
}

/// The current Unix time in seconds (zero when the clock stands before the epoch).
pub fn now_ts() -> (r: i64)
    ensures
        exists|reading: Option<u64>| r == timestamp_of(reading),
{
    timestamp_from_clock(clock_secs())
}

/// When a snooze taken at `now` ends.
pub fn snooze_until(now: i64) -> (r: i64)
    requires
        now + SNOOZE_SECS <= i64::MAX,
    ensures
        r == now + SNOOZE_SECS,
{
    now + SNOOZE_SECS
}

/// Whether a snooze ending at `until` has run out at `now` (permanent mutes never do).
pub fn mute_expired(until: Option<i64>, now: i64) -> (r: bool)
    ensures
        r == (match until {
            Some(u) => u <= now,
            None => false,
        }),
{
    match until {
        Some(u) => u <= now,
        None => false,
    }
}

/// Quiet hours from the three stored columns: present only when all three are.
pub fn quiet_hours_from_columns(tz: Option<i32>, start: Option<i32>, end: Option<i32>) -> (r:
    Option<QuietHours>)
    ensures
        match r {
            Some(q) => tz == Some(q.tz_offset_min) && start == Some(q.start_min) && end == Some(
                q.end_min,
            ),
            None => tz is None || start is None || end is None,
        },
{
    match (tz, start, end) {
        (Some(tz), Some(start), Some(end)) => Some(
            QuietHours { tz_offset_min: tz, start_min: start, end_min: end },
        ),
        _ => None,
    }
}

/// Whether quiet hours `qh` let notifications through at `now`: always when
/// none are set.
pub open spec fn window_allows(qh: Option<QuietHours>, now: i64) -> bool {
    match qh {
        None => true,
        Some(q) => in_window(
            minute_of_day(now as int, q.tz_offset_min as int),
            q.start_min as int,
            q.end_min as int,
        ),
    }
}

/// Whether the notification window is open at `now` for a user with quiet hours `qh`.
pub fn notification_window_open(qh: Option<QuietHours>, now: i64) -> (r: bool)
    requires
        qh matches Some(q) ==> (q.start_min != q.end_min ==> shift_fits(now, q.tz_offset_min)),
    ensures
        r == window_allows(qh, now),
{
    match qh {
        None => true,
        Some(q) => is_in_notification_window(now, q.tz_offset_min, q.start_min, q.end_min),
    }
}

/// Whether some host in `hosts` matches `game_host`.
pub open spec fn any_host_matches(hosts: Seq<String>, game_host: Seq<char>) -> bool {
    exists|i: int| 0 <= i < hosts.len() && pattern_matches(#[trigger] hosts[i]@, game_host)
}

/// Whether a host filter in `mode` with host list `hosts` lets `game_host` through.
pub open spec fn filter_allows(mode: Seq<char>, hosts: Seq<String>, game_host: Seq<char>) -> bool {
    if mode == HF_WHITELIST@ {
        any_host_matches(hosts, game_host)
    } else if mode == HF_BLACKLIST@ {
        !any_host_matches(hosts, game_host)
    } else {
        true
    }
}

/// Whether some host in `hosts` matches `game_host`.
fn any_host_matches_exec(hosts: &Vec<String>, game_host: &str) -> (r: bool)
    ensures
        r == any_host_matches(hosts@, game_host@),
{
    let mut i: usize = 0;
    while i < hosts.len()
        invariant
            i <= hosts.len(),
            forall|j: int| 0 <= j < i ==> !pattern_matches(#[trigger] hosts@[j]@, game_host@),
        decreases hosts.len() - i,
    {
        if crate::norm::matches(hosts[i].as_str(), game_host) {
            return true;
        }
        i = i + 1;
    }
    false
}

/// Whether a subscription's host filter (`mode`, `hosts`) lets a lobby hosted
/// by `game_host` through: a whitelist needs a matching host, a blacklist
/// refuses one, any other mode lets everything through.
pub fn host_filter_passes(mode: &str, hosts: &Vec<String>, game_host: &str) -> (r: bool)
    ensures
        r == filter_allows(mode@, hosts@, game_host@),
{
    if str_eq(mode, HF_WHITELIST) {
        any_host_matches_exec(hosts, game_host)
    } else if str_eq(mode, HF_BLACKLIST) {
        !any_host_matches_exec(hosts, game_host)
    } else {
        true
    }
}

/// Whether a lobby with these map, host and game names triggers `sub`:
/// its pattern matches the field its kind names (the map for any kind other
/// than host and name).
pub open spec fn sub_matches_game(sub: Sub, map: Seq<char>, host: Seq<char>, name: Seq<char>) -> bool {
    if sub.kind@ == KIND_HOST@ {
        pattern_matches(sub.pattern@, host)
    } else if sub.kind@ == KIND_NAME@ {
        pattern_matches(sub.pattern@, name)
    } else {
        pattern_matches(sub.pattern@, map)
    }
}

/// Whether the host filter applies to a subscription's kind (map and name ones).
pub open spec fn filter_applies(kind: Seq<char>) -> bool {
    kind == KIND_MAP@ || kind == KIND_NAME@
}

/// Whether a lobby should be announced for `sub`: it matches, the
/// subscription's selector is not muted, and for map and name subscriptions
/// the host filter lets the host through.
pub open spec fn notify_decision(
    sub: Sub,
    muted: bool,
    mode: Seq<char>,
    hosts: Seq<String>,
    map: Seq<char>,
    host: Seq<char>,
    name: Seq<char>,
) -> bool {
    sub_matches_game(sub, map, host, name) && !muted && (filter_applies(sub.kind@) ==> filter_allows(
        mode,
        hosts,
        host,
    ))
}

/// Whether a lobby with the given map, host and game names should trigger a
/// notification for `sub`, given whether its selector is muted and its host
/// filter (`mode`, `hosts`).
pub fn should_notify(
    sub: &Sub,
    muted: bool,
    mode: &str,
    hosts: &Vec<String>,
    game_map: &str,
    game_host: &str,
    game_name: &str,
) -> (r: bool)
    ensures
        r == notify_decision(*sub, muted, mode@, hosts@, game_map@, game_host@, game_name@),
{
    let kind = sub.kind.as_str();
    let matched = if str_eq(kind, KIND_HOST) {
        crate::norm::matches(sub.pattern.as_str(), game_host)
    } else if str_eq(kind, KIND_NAME) {
        crate::norm::matches(sub.pattern.as_str(), game_name)
    } else {
        crate::norm::matches(sub.pattern.as_str(), game_map)
    };
    if !matched {
        return false;
    }
    if muted {
        return false;
    }
    if (str_eq(kind, KIND_MAP) || str_eq(kind, KIND_NAME)) && !host_filter_passes(
        mode,
        hosts,
        game_host,
    ) {
        return false;
    }
    true
}

/// The host filter mode after `mode` in the cycle off → whitelist → blacklist → off;
/// an unknown mode goes to off.
pub open spec fn next_mode(mode: Seq<char>) -> Seq<char> {
    if mode == HF_OFF@ {
        HF_WHITELIST@
    } else if mode == HF_WHITELIST@ {
        HF_BLACKLIST@
    } else {
        HF_OFF@
    }
}

/// The host filter mode that follows `mode` when the user toggles it.
pub fn next_host_filter_mode(mode: &str) -> (r: &'static str)
    ensures
        r@ == next_mode(mode@),
{
    if str_eq(mode, HF_OFF) {
        HF_WHITELIST
    } else if str_eq(mode, HF_WHITELIST) {
        HF_BLACKLIST
    } else {
        HF_OFF
    }
}

/// Whether the columns of the stored `map_mutes` table are those of its old
/// layout, keyed by the full map name (a column named `map`), which is dropped
/// and made anew.
pub fn legacy_map_mutes(columns: &Vec<String>) -> (r: bool)
    ensures
        r == exists|i: int| 0 <= i < columns@.len() && columns@[i]@ == "map"@,
{
    let mut i: usize = 0;
    while i < columns.len()
        invariant
            i <= columns.len(),
            forall|j: int| 0 <= j < i ==> columns@[j]@ != "map"@,
        decreases columns.len() - i,
    {
        if str_eq(columns[i].as_str(), "map") {
            return true;
        }
        i = i + 1;
    }
    false
}

/// Whether the subscription looked up (if any) belongs to user `uid`: only
/// then are operations on it carried out.
pub fn owns(sub: &Option<Sub>, uid: i64) -> (r: bool)
    ensures
        r == (sub matches Some(s) && s.chat_id == uid),
{
    match sub {
        Some(s) => s.chat_id == uid,
        None => false,
    }
}

impl Sub {
    /// A copy of the subscription, equal to it field by field.
    pub fn duplicate(&self) -> (r: Sub)
        ensures
            r == *self,
    {
        Sub {
            id: self.id,
            chat_id: self.chat_id,
            kind: self.kind.clone(),
            pattern: self.pattern.clone(),
            enabled: self.enabled,
            host_filter: self.host_filter.clone(),
        }
    }
}

/// A muted selector never triggers a notification, whatever the lobby.
pub proof fn law_muted_never_notifies(
    sub: Sub,
    mode: Seq<char>,
    hosts: Seq<String>,
    map: Seq<char>,
    host: Seq<char>,
    name: Seq<char>,
)
    ensures
        !notify_decision(sub, true, mode, hosts, map, host, name),
{
}

/// A host subscription ignores its host filter.
pub proof fn law_host_subs_ignore_filter(
    sub: Sub,
    muted: bool,
    m1: Seq<char>,
    h1: Seq<String>,
    m2: Seq<char>,
    h2: Seq<String>,
    map: Seq<char>,
    host: Seq<char>,
    name: Seq<char>,
)
    requires
        sub.kind@ == KIND_HOST@,
    ensures
        notify_decision(sub, muted, m1, h1, map, host, name) == notify_decision(
            sub,
            muted,
            m2,
            h2,
            map,
            host,
            name,
        ),
{
    reveal_strlit("host");
    reveal_strlit("map");
    reveal_strlit("name");
    assert(KIND_HOST@ != KIND_MAP@ && KIND_HOST@ != KIND_NAME@) by {
        assert(KIND_HOST@[0] != KIND_MAP@[0]);
        assert(KIND_HOST@[0] != KIND_NAME@[0]);
    }
}

/// An empty whitelist lets no host through; the off mode lets every host through;
/// a blacklist lets through exactly what the same whitelist refuses.
pub proof fn law_filter_modes(hosts: Seq<String>, host: Seq<char>)
    ensures
        filter_allows(HF_WHITELIST@, Seq::<String>::empty(), host) == false,
        filter_allows(HF_OFF@, hosts, host),
        filter_allows(HF_BLACKLIST@, hosts, host) == !filter_allows(HF_WHITELIST@, hosts, host),
{
    reveal_strlit("whitelist");
    reveal_strlit("blacklist");
    reveal_strlit("off");
    assert(HF_OFF@ != HF_WHITELIST@ && HF_OFF@ != HF_BLACKLIST@ && HF_WHITELIST@ != HF_BLACKLIST@)
        by {
        assert(HF_OFF@[0] != HF_WHITELIST@[0]);
        assert(HF_OFF@[0] != HF_BLACKLIST@[0]);
        assert(HF_WHITELIST@[0] != HF_BLACKLIST@[0]);
    }
}

/// A host filter looks at every listed host, wherever it stands in the list:
/// one listed host that matches lets the lobby through a whitelist and keeps
/// it out under a blacklist; when none matches, a whitelist keeps it out and a
/// blacklist lets it through. So adding a host to a whitelist, at either end,
/// never blocks a host that the whitelist let through before.
pub proof fn law_filter_checks_every_listed_host(hosts: Seq<String>, extra: String, host: Seq<char>)
    ensures
        forall|i: int|
            0 <= i < hosts.len() && pattern_matches(#[trigger] hosts[i]@, host) ==> filter_allows(
                HF_WHITELIST@,
                hosts,
                host,
            ) && !filter_allows(HF_BLACKLIST@, hosts, host),
        (forall|i: int| 0 <= i < hosts.len() ==> !pattern_matches(#[trigger] hosts[i]@, host))
            ==> !filter_allows(HF_WHITELIST@, hosts, host) && filter_allows(HF_BLACKLIST@, hosts, host),
        filter_allows(HF_WHITELIST@, hosts, host) ==> filter_allows(
            HF_WHITELIST@,
            hosts.push(extra),
            host,
        ) && filter_allows(HF_WHITELIST@, seq![extra] + hosts, host),
{
    reveal_strlit("whitelist");
    reveal_strlit("blacklist");
    assert(HF_WHITELIST@ != HF_BLACKLIST@) by {
        assert(HF_WHITELIST@[0] != HF_BLACKLIST@[0]);
    }
    if filter_allows(HF_WHITELIST@, hosts, host) {
        let j = choose|j: int| 0 <= j < hosts.len() && pattern_matches(#[trigger] hosts[j]@, host);
        assert(hosts.push(extra)[j] == hosts[j]);
        assert((seq![extra] + hosts)[j + 1] == hosts[j]);
        assert(pattern_matches(hosts.push(extra)[j]@, host));
        assert(pattern_matches((seq![extra] + hosts)[j + 1]@, host));
    }
}

/// Toggling the host filter mode three times comes back to where it started,
/// for each of the three modes.
pub proof fn law_mode_cycle(mode: Seq<char>)
    requires
        mode == HF_OFF@ || mode == HF_WHITELIST@ || mode == HF_BLACKLIST@,
    ensures
        next_mode(next_mode(next_mode(mode))) == mode,
        next_mode(mode) != mode,
{
    reveal_strlit("whitelist");
    reveal_strlit("blacklist");
    reveal_strlit("off");
    assert(HF_OFF@ != HF_WHITELIST@ && HF_OFF@ != HF_BLACKLIST@ && HF_WHITELIST@ != HF_BLACKLIST@)
        by {
        assert(HF_OFF@[0] != HF_WHITELIST@[0]);
        assert(HF_OFF@[0] != HF_BLACKLIST@[0]);
        assert(HF_WHITELIST@[0] != HF_BLACKLIST@[0]);
    }
}

} // verus!
