//! The decisions behind the chat interface: what a typed message or a pressed
//! button asks for, given the input the user was prompted for. Talking to
//! Telegram and to the database happens outside this crate; these functions
//! get the text and the pending state and say what to do next.
use vstd::prelude::*;
use crate::api::fill;
use crate::db::{owns, str_eq, MapMute, QuietHours, Sub, HF_BLACKLIST, HF_WHITELIST, KIND_HOST, KIND_MAP, KIND_NAME};
use crate::loc::T;
use crate::pinger::{button, button_is, Button};
use crate::db::filter_applies;
use crate::startup::joined;
use crate::quiet::{
    clock_text, format_minutes, format_tz_offset, offset_text,
    hhmm_minutes, law_hhmm_is_minute_of_day, law_utc_offset_within_day, parse_hhmm, parse_utc_offset,
    utc_offset_minutes,
};
use crate::text::{
    append_chars, append_str, lemma_signed_decimal_reads_back, signed_decimal, signed_decimal_chars,
    chars_of, char_is_whitespace, decimal, decimal_chars, replace_all, find_char, index_of, is_white_space, lemma_index_of, lemma_index_of_is,
    lemma_trim_shape, parse_i64_range, parse_signed, slice_chars, string_of, trim, trim_chars,
};

verus! {

/// The longest name, in characters, kept from a user's input.
pub const MAX_PATTERN_LEN: usize = 64;

/// The first `n` characters of `s` (all of it when it is shorter).
pub open spec fn first_chars(s: Seq<char>, n: int) -> Seq<char> {
    if s.len() <= n {
        s
    } else {
        s.take(n)
    }
}

/// A user's input as it is stored: its first 64 characters, trimmed.
pub open spec fn sanitized(s: Seq<char>) -> Seq<char> {
    trim(first_chars(s, MAX_PATTERN_LEN as int))
}

/// Cuts a user's input to its first 64 characters and trims white space.
pub fn sanitize_input(input: &str) -> (r: String)
    ensures
        r@ == sanitized(input@),
{
    let v = chars_of(input);
    let n = if v.len() <= MAX_PATTERN_LEN {
        v.len()
    } else {
        MAX_PATTERN_LEN
    };
    let head = slice_chars(&v, 0, n);
    assert(head@ == first_chars(v@, MAX_PATTERN_LEN as int)) by {
        if v@.len() <= MAX_PATTERN_LEN {
            assert(v@.subrange(0, v@.len() as int) =~= v@);
        }
    }
    let t = trim_chars(&head);
    string_of(&t)
}

/// A stored name has at most 64 characters and neither starts nor ends with
/// white space.
pub proof fn law_stored_names_are_short_and_trimmed(s: Seq<char>)
    ensures
        sanitized(s).len() <= MAX_PATTERN_LEN,
        sanitized(s).len() > 0 ==> !is_white_space(sanitized(s)[0]) && !is_white_space(
            sanitized(s).last(),
        ),
{
    lemma_trim_shape(first_chars(s, MAX_PATTERN_LEN as int));
}

/// The input the bot waits for from a user.
#[derive(Debug, Clone, Copy, PartialEq, Eq, Structural)]
pub enum Pending {
    /// A map name to subscribe to.
    AddMap,
    /// A host name to subscribe to.
    AddHost,
    /// A game name to subscribe to.
    AddName,
    /// A name to subscribe to as map, host and game name at once.
    AddAll,
    /// The new name of subscription `0`.
    Rename(i64),
    /// A host for the host filter of subscription `0`.
    AddHostFilter(i64),
    /// The start of the notification window.
    QhStart,
    /// The end of the notification window that starts at `start_min`.
    QhEnd { start_min: i32 },
    /// The UTC offset of the window `[start_min, end_min)`.
    QhTz { start_min: i32, end_min: i32 },
}

/// The pending input that adds a subscription of `kind` (a map one for an unknown kind).
pub open spec fn pending_for_kind(kind: Seq<char>) -> Pending {
    if kind == KIND_HOST@ {
        Pending::AddHost
    } else if kind == KIND_NAME@ {
        Pending::AddName
    } else {
        Pending::AddMap
    }
}

/// The pending input that adds another subscription of `kind`.
pub fn kind_to_pending(kind: &str) -> (r: Pending)
    ensures
        r == pending_for_kind(kind@),
{
    if str_eq(kind, KIND_HOST) {
        Pending::AddHost
    } else if str_eq(kind, KIND_NAME) {
        Pending::AddName
    } else {
        Pending::AddMap
    }
}

/// The label of a subscription kind in texts `t` (the map label for an unknown kind).
pub open spec fn kind_label_of(kind: Seq<char>, t: T) -> &'static str {
    if kind == KIND_HOST@ {
        t.kind_host
    } else if kind == KIND_NAME@ {
        t.kind_name
    } else {
        t.kind_map
    }
}

/// The label of a subscription kind.
pub fn kind_label(kind: &str, t: &T) -> (r: &'static str)
    ensures
        r == kind_label_of(kind@, *t),
{
    if str_eq(kind, KIND_HOST) {
        t.kind_host
    } else if str_eq(kind, KIND_NAME) {
        t.kind_name
    } else {
        t.kind_map
    }
}

/// The icon of a subscription kind (the map icon for an unknown kind).
pub open spec fn kind_icon_of(kind: Seq<char>) -> Seq<char> {
    if kind == KIND_HOST@ {
        "👤"@
    } else if kind == KIND_NAME@ {
        "📛"@
    } else {
        "🗺"@
    }
}

/// The icon shown when a subscription of `kind` is added.
pub fn kind_icon(kind: &str) -> (r: &'static str)
    ensures
        r@ == kind_icon_of(kind@),
{
    if str_eq(kind, KIND_HOST) {
        "👤"
    } else if str_eq(kind, KIND_NAME) {
        "📛"
    } else {
        "🗺"
    }
}

/// A slash command.
#[derive(Debug, Clone, Copy, PartialEq, Eq, Structural)]
pub enum Command {
    /// `/start`, `/menu` or `/help`: show the main menu.
    Menu,
    /// `/manage`: show the subscriptions.
    Manage,
    /// `/cancel`: drop the pending input and show the main menu.
    Cancel,
    /// `/done`: finish adding and show the subscriptions.
    Done,
    /// `/stop`: delete the user's data.
    Stop,
    /// Any other word after a slash: nothing happens.
    Other,
}

/// The characters of `s` before its first white space.
pub open spec fn first_word(s: Seq<char>) -> Seq<char>
    decreases s.len(),
{
    if s.len() == 0 || is_white_space(s[0]) {
        Seq::empty()
    } else {
        seq![s[0]] + first_word(s.drop_first())
    }
}

proof fn lemma_first_word(s: Seq<char>, k: int)
    requires
        0 <= k <= s.len(),
        k == s.len() || is_white_space(s[k]),
        forall|j: int| 0 <= j < k ==> !is_white_space(#[trigger] s[j]),
    ensures
        first_word(s) == s.take(k),
    decreases k,
{
    if k == 0 {
        assert(s.take(0) =~= Seq::<char>::empty());
    } else {
        assert(!is_white_space(s[0]));
        let t = s.drop_first();
        assert forall|j: int| 0 <= j < k - 1 implies !is_white_space(#[trigger] t[j]) by {
            assert(t[j] == s[j + 1]);
        }
        if k < s.len() {
            assert(t[k - 1] == s[k]);
        }
        lemma_first_word(t, k - 1);
        assert(seq![s[0]] + t.take(k - 1) =~= s.take(k));
    }
}

/// The command a word names.
pub open spec fn command_of(word: Seq<char>) -> Command {
    if word == "/start"@ || word == "/menu"@ || word == "/help"@ {
        Command::Menu
    } else if word == "/manage"@ {
        Command::Manage
    } else if word == "/cancel"@ {
        Command::Cancel
    } else if word == "/done"@ {
        Command::Done
    } else if word == "/stop"@ {
        Command::Stop
    } else {
        Command::Other
    }
}

/// The command that the first word of `text` names.
pub fn parse_command(text: &str) -> (r: Command)
    ensures
        r == command_of(first_word(text@)),
{
    let v = chars_of(text);
    let mut k: usize = 0;
    while k < v.len() && !char_is_whitespace(v[k])
        invariant
            k <= v.len(),
            v@ == text@,
            forall|j: int| 0 <= j < k ==> !is_white_space(#[trigger] v@[j]),
        decreases v.len() - k,
    {
        k = k + 1;
    }
    proof {
        lemma_first_word(v@, k as int);
    }
    let w = string_of(&slice_chars(&v, 0, k));
    let w = w.as_str();
    if str_eq(w, "/start") || str_eq(w, "/menu") || str_eq(w, "/help") {
        Command::Menu
    } else if str_eq(w, "/manage") {
        Command::Manage
    } else if str_eq(w, "/cancel") {
        Command::Cancel
    } else if str_eq(w, "/done") {
        Command::Done
    } else if str_eq(w, "/stop") {
        Command::Stop
    } else {
        Command::Other
    }
}

/// The view of an optional string.
pub open spec fn opt_view(o: Option<String>) -> Option<Seq<char>> {
    match o {
        Some(s) => Some(s@),
        None => None,
    }
}

/// The parts of `op:id[:extra]`: the text before the first colon, the number
/// between the first and the second colon, and what follows the second colon;
/// `None` when there is no colon or the number does not parse as an `i64`.
pub open spec fn sub_callback_parts(d: Seq<char>) -> Option<(Seq<char>, int, Option<Seq<char>>)> {
    match index_of(d, ':') {
        None => None,
        Some(i) => {
            let rest = d.subrange(i + 1, d.len() as int);
            let (id_text, extra) = match index_of(rest, ':') {
                None => (rest, None),
                Some(j) => (rest.take(j), Some(rest.subrange(j + 1, rest.len() as int))),
            };
            match parse_signed(id_text, i64::MIN as int, i64::MAX as int) {
                Some(id) => Some((d.take(i), id, extra)),
                None => None,
            }
        },
    }
}

/// Button data for an operation on one subscription: `op:sub_id[:extra]`.
pub struct SubCallback {
    pub op: String,
    pub id: i64,
    pub extra: Option<String>,
}

impl SubCallback {
    /// Splits `op:sub_id[:extra]` at its first two colons; `None` when there is
    /// no colon or the id is not an `i64`.
    pub fn parse(data: &str) -> (r: Option<SubCallback>)
        ensures
            match r {
                Some(cb) => sub_callback_parts(data@) == Some((cb.op@, cb.id as int, opt_view(cb.extra))),
                None => sub_callback_parts(data@) is None,
            },
    {
        let v = chars_of(data);
        proof {
            lemma_index_of(v@, ':');
        }
        let i = match find_char(&v, ':') {
            Some(i) => i,
            None => return None,
        };
        let rest = slice_chars(&v, i + 1, v.len());
        proof {
            lemma_index_of(rest@, ':');
        }
        let (id, extra) = match find_char(&rest, ':') {
            Some(j) => {
                let id = parse_i64_range(&rest, 0, j);
                let extra = string_of(&slice_chars(&rest, j + 1, rest.len()));
                (id, Some(extra))
            },
            None => {
                assert(rest@.subrange(0, rest@.len() as int) =~= rest@);
                (parse_i64_range(&rest, 0, rest.len()), None)
            },
        };
        match id {
            Some(id) => {
                let op = string_of(&slice_chars(&v, 0, i));
                Some(SubCallback { op, id, extra })
            },
            None => None,
        }
    }
}

/// Whether a lobby notification's button snoozes its subscription for a while
/// or mutes it for good.
#[derive(Debug, Clone, Copy, PartialEq, Eq, Structural)]
pub enum MuteOp {
    Snooze,
    Mute,
}

/// Whether `kind` is one of the three subscription kinds.
pub open spec fn is_kind(kind: Seq<char>) -> bool {
    kind == KIND_MAP@ || kind == KIND_HOST@ || kind == KIND_NAME@
}

/// The parts of `snooze:kind:pattern` or `mute:kind:pattern` with a known
/// kind; the pattern is all that follows the second colon.
pub open spec fn silence_parts(d: Seq<char>) -> Option<(MuteOp, Seq<char>, Seq<char>)> {
    match index_of(d, ':') {
        None => None,
        Some(i) => {
            let op = d.take(i);
            let rest = d.subrange(i + 1, d.len() as int);
            if op != "snooze"@ && op != "mute"@ {
                None
            } else {
                match index_of(rest, ':') {
                    None => None,
                    Some(j) => {
                        let kind = rest.take(j);
                        if is_kind(kind) {
                            Some(
                                (
                                    if op == "snooze"@ {
                                        MuteOp::Snooze
                                    } else {
                                        MuteOp::Mute
                                    },
                                    kind,
                                    rest.subrange(j + 1, rest.len() as int),
                                ),
                            )
                        } else {
                            None
                        }
                    },
                }
            }
        },
    }
}

/// An operation on one subscription.
#[derive(Debug, Clone, Copy, PartialEq, Eq, Structural)]
pub enum SubOp {
    /// `hosts`: show the host filter.
    Hosts,
    /// `hmode`: switch the host filter to its next mode.
    HostMode,
    /// `hadd`: ask for a host to add to the filter.
    HostAdd,
    /// `hdel`: remove the host named after the id from the filter.
    HostDelete,
    /// `map` or `hback`: show the subscription.
    View,
    /// `toggle`: switch the subscription on or off.
    Toggle,
    /// `rename`: ask for a new name.
    Rename,
    /// `del`: delete the subscription.
    Delete,
}

/// The operation a button's `op` names.
pub open spec fn sub_op_of(op: Seq<char>) -> Option<SubOp> {
    if op == "hosts"@ {
        Some(SubOp::Hosts)
    } else if op == "hmode"@ {
        Some(SubOp::HostMode)
    } else if op == "hadd"@ {
        Some(SubOp::HostAdd)
    } else if op == "hdel"@ {
        Some(SubOp::HostDelete)
    } else if op == "map"@ || op == "hback"@ {
        Some(SubOp::View)
    } else if op == "toggle"@ {
        Some(SubOp::Toggle)
    } else if op == "rename"@ {
        Some(SubOp::Rename)
    } else if op == "del"@ {
        Some(SubOp::Delete)
    } else {
        None
    }
}

fn sub_op(op: &str) -> (r: Option<SubOp>)
    ensures
        r == sub_op_of(op@),
{
    if str_eq(op, "hosts") {
        Some(SubOp::Hosts)
    } else if str_eq(op, "hmode") {
        Some(SubOp::HostMode)
    } else if str_eq(op, "hadd") {
        Some(SubOp::HostAdd)
    } else if str_eq(op, "hdel") {
        Some(SubOp::HostDelete)
    } else if str_eq(op, "map") || str_eq(op, "hback") {
        Some(SubOp::View)
    } else if str_eq(op, "toggle") {
        Some(SubOp::Toggle)
    } else if str_eq(op, "rename") {
        Some(SubOp::Rename)
    } else if str_eq(op, "del") {
        Some(SubOp::Delete)
    } else {
        None
    }
}

/// What a pressed button asks for.
pub enum CallbackAction {
    /// `lang`: switch the language and show the main menu.
    ToggleLanguage,
    /// `menu`: show the main menu.
    ShowMenu,
    /// `manage`: show the subscriptions.
    ShowManage,
    /// `settings`: show the settings.
    ShowSettings,
    /// `quiet`: show the quiet-hours screen.
    ShowQuietHours,
    /// `qh_setup`: ask for the start of the notification window.
    SetUpQuietHours,
    /// `qh_off`: drop the quiet hours.
    DisableQuietHours,
    /// `notif`: switch notifications on or off.
    ToggleNotifications,
    /// `addmap`, `addhost`, `addname`: ask for a name to subscribe to.
    StartAdding(Pending),
    /// `addall`: ask for a name to subscribe to under all three kinds.
    StartAddingAll,
    /// `cancel`: drop the pending input and show the main menu.
    Cancel,
    /// `done`: drop the pending input and show the subscriptions.
    Done,
    /// `check`: delete the notification the button belongs to.
    Dismiss,
    /// `snooze:kind:pattern` or `mute:kind:pattern`.
    Silence { op: MuteOp, kind: String, pattern: String },
    /// `op:sub_id[:extra]`, carried out when the subscription is the user's.
    Sub { sub_op: SubOp, id: i64, extra: Option<String> },
    /// Anything else: nothing happens.
    Ignore,
}

/// The action a fixed button word names.
pub open spec fn keyword_action(d: Seq<char>) -> Option<CallbackAction> {
    if d == "lang"@ {
        Some(CallbackAction::ToggleLanguage)
    } else if d == "menu"@ {
        Some(CallbackAction::ShowMenu)
    } else if d == "manage"@ {
        Some(CallbackAction::ShowManage)
    } else if d == "settings"@ {
        Some(CallbackAction::ShowSettings)
    } else if d == "quiet"@ {
        Some(CallbackAction::ShowQuietHours)
    } else if d == "qh_setup"@ {
        Some(CallbackAction::SetUpQuietHours)
    } else if d == "qh_off"@ {
        Some(CallbackAction::DisableQuietHours)
    } else if d == "notif"@ {
        Some(CallbackAction::ToggleNotifications)
    } else if d == "addmap"@ {
        Some(CallbackAction::StartAdding(Pending::AddMap))
    } else if d == "addhost"@ {
        Some(CallbackAction::StartAdding(Pending::AddHost))
    } else if d == "addname"@ {
        Some(CallbackAction::StartAdding(Pending::AddName))
    } else if d == "addall"@ {
        Some(CallbackAction::StartAddingAll)
    } else if d == "cancel"@ {
        Some(CallbackAction::Cancel)
    } else if d == "done"@ {
        Some(CallbackAction::Done)
    } else if d == "check"@ {
        Some(CallbackAction::Dismiss)
    } else {
        None
    }
}

/// Whether `r` is the action that button data `d` asks for: a fixed word
/// first, then a snooze or mute of a known kind, then an operation on a
/// subscription (a host removal only with a host), else nothing.
pub open spec fn callback_action_is(d: Seq<char>, r: CallbackAction) -> bool {
    match keyword_action(d) {
        Some(a) => r == a,
        None => match silence_parts(d) {
            Some((op, kind, pattern)) => r matches CallbackAction::Silence { op: o, kind: k, pattern: p }
                && o == op && k@ == kind && p@ == pattern,
            None => match sub_callback_parts(d) {
                Some((op_text, id, extra)) => match sub_op_of(op_text) {
                    Some(op) => if op == SubOp::HostDelete && extra is None {
                        r is Ignore
                    } else {
                        r matches CallbackAction::Sub { sub_op: o, id: i, extra: e } && o == op && i == id
                            && opt_view(e) == extra
                    },
                    None => r is Ignore,
                },
                None => r is Ignore,
            },
        },
    }
}

fn keyword(d: &str) -> (r: Option<CallbackAction>)
    ensures
        r == keyword_action(d@),
{
    if str_eq(d, "lang") {
        Some(CallbackAction::ToggleLanguage)
    } else if str_eq(d, "menu") {
        Some(CallbackAction::ShowMenu)
    } else if str_eq(d, "manage") {
        Some(CallbackAction::ShowManage)
    } else if str_eq(d, "settings") {
        Some(CallbackAction::ShowSettings)
    } else if str_eq(d, "quiet") {
        Some(CallbackAction::ShowQuietHours)
    } else if str_eq(d, "qh_setup") {
        Some(CallbackAction::SetUpQuietHours)
    } else if str_eq(d, "qh_off") {
        Some(CallbackAction::DisableQuietHours)
    } else if str_eq(d, "notif") {
        Some(CallbackAction::ToggleNotifications)
    } else if str_eq(d, "addmap") {
        Some(CallbackAction::StartAdding(Pending::AddMap))
    } else if str_eq(d, "addhost") {
        Some(CallbackAction::StartAdding(Pending::AddHost))
    } else if str_eq(d, "addname") {
        Some(CallbackAction::StartAdding(Pending::AddName))
    } else if str_eq(d, "addall") {
        Some(CallbackAction::StartAddingAll)
    } else if str_eq(d, "cancel") {
        Some(CallbackAction::Cancel)
    } else if str_eq(d, "done") {
        Some(CallbackAction::Done)
    } else if str_eq(d, "check") {
        Some(CallbackAction::Dismiss)
    } else {
        None
    }
}

/// Splits `snooze:kind:pattern` or `mute:kind:pattern`.
fn parse_silence(d: &str) -> (r: Option<(MuteOp, String, String)>)
    ensures
        match r {
            Some((op, kind, pattern)) => silence_parts(d@) == Some((op, kind@, pattern@)),
            None => silence_parts(d@) is None,
        },
{
    let v = chars_of(d);
    proof {
        lemma_index_of(v@, ':');
    }
    let i = match find_char(&v, ':') {
        Some(i) => i,
        None => return None,
    };
    let op_text = string_of(&slice_chars(&v, 0, i));
    let op = if str_eq(op_text.as_str(), "snooze") {
        MuteOp::Snooze
    } else if str_eq(op_text.as_str(), "mute") {
        MuteOp::Mute
    } else {
        return None;
    };
    let rest = slice_chars(&v, i + 1, v.len());
    proof {
        lemma_index_of(rest@, ':');
    }
    let j = match find_char(&rest, ':') {
        Some(j) => j,
        None => return None,
    };
    let kind = string_of(&slice_chars(&rest, 0, j));
    if !(str_eq(kind.as_str(), KIND_MAP) || str_eq(kind.as_str(), KIND_HOST) || str_eq(
        kind.as_str(),
        KIND_NAME,
    )) {
        return None;
    }
    let pattern = string_of(&slice_chars(&rest, j + 1, rest.len()));
    Some((op, kind, pattern))
}

/// What the button with data `data` asks for.
pub fn route_callback(data: &str) -> (r: CallbackAction)
    ensures
        callback_action_is(data@, r),
{
    if let Some(a) = keyword(data) {
        return a;
    }
    if let Some((op, kind, pattern)) = parse_silence(data) {
        return CallbackAction::Silence { op, kind, pattern };
    }
    match SubCallback::parse(data) {
        Some(cb) => match sub_op(cb.op.as_str()) {
            Some(op) => {
                if op == SubOp::HostDelete && cb.extra.is_none() {
                    CallbackAction::Ignore
                } else {
                    CallbackAction::Sub { sub_op: op, id: cb.id, extra: cb.extra }
                }
            },
            None => CallbackAction::Ignore,
        },
        None => CallbackAction::Ignore,
    }
}

/// The pending input once `action` has been carried out, `current` before it.
pub open spec fn pending_after(action: CallbackAction, current: Option<Pending>) -> Option<Pending> {
    match action {
        CallbackAction::SetUpQuietHours => Some(Pending::QhStart),
        CallbackAction::StartAdding(p) => Some(p),
        CallbackAction::StartAddingAll => Some(Pending::AddAll),
        CallbackAction::Cancel => None,
        CallbackAction::Done => None,
        CallbackAction::Sub { sub_op: SubOp::HostAdd, id, .. } => Some(Pending::AddHostFilter(id)),
        CallbackAction::Sub { sub_op: SubOp::Rename, id, .. } => Some(Pending::Rename(id)),
        _ => current,
    }
}

/// The pending input after a button's action has been carried out.
pub fn pending_after_callback(action: &CallbackAction, current: Option<Pending>) -> (r: Option<
    Pending,
>)
    ensures
        r == pending_after(*action, current),
{
    match action {
        CallbackAction::SetUpQuietHours => Some(Pending::QhStart),
        CallbackAction::StartAdding(p) => Some(*p),
        CallbackAction::StartAddingAll => Some(Pending::AddAll),
        CallbackAction::Cancel => None,
        CallbackAction::Done => None,
        CallbackAction::Sub { sub_op: SubOp::HostAdd, id, .. } => Some(Pending::AddHostFilter(*id)),
        CallbackAction::Sub { sub_op: SubOp::Rename, id, .. } => Some(Pending::Rename(*id)),
        _ => current,
    }
}

/// The kind of subscription that a pending addition adds.
pub open spec fn added_kind(p: Pending) -> Seq<char> {
    match p {
        Pending::AddHost => KIND_HOST@,
        Pending::AddName => KIND_NAME@,
        _ => KIND_MAP@,
    }
}

/// What a typed message asks for.
pub enum MessageAction {
    /// A slash command.
    Run(Command),
    /// Subscribe to `name` under `kind`.
    AddSub { kind: &'static str, name: String },
    /// Subscribe to `name` under all three kinds.
    AddAll { name: String },
    /// The name to add was empty.
    EmptyAddition,
    /// Ask for the end of the notification window.
    AskQuietEnd,
    /// Ask for the UTC offset.
    AskQuietTz,
    /// Store the quiet hours.
    SaveQuietHours { tz_offset_min: i32, start_min: i32, end_min: i32 },
    /// The time was not `HH:MM`.
    BadQuietTime,
    /// The window would end where it starts.
    EmptyQuietWindow,
    /// The UTC offset did not parse.
    BadQuietTz,
    /// The new name or host was empty.
    EmptyName,
    /// Rename subscription `id` to `name`.
    Rename { id: i64, name: String },
    /// Add `host` to the host filter of subscription `sub_id`.
    AddFilterHost { sub_id: i64, host: String },
    /// No input was expected: point the user to the menu.
    UseMenu,
}

/// A typed message's outcome: the pending input afterwards and what to do.
pub struct MessageStep {
    pub next: Option<Pending>,
    pub action: MessageAction,
}

/// Whether `r` is the outcome of message `text` while `pending` is awaited.
/// A message that starts with a slash (after trimming) is a command and drops
/// the pending input. Otherwise the awaited input is consumed: a name is its
/// first 64 characters, trimmed; a quiet-hours step that fails keeps waiting
/// for the same input, and one whose end equals its start is refused.
pub open spec fn message_step_is(pending: Option<Pending>, text: Seq<char>, r: MessageStep) -> bool {
    let t = trim(text);
    let name = sanitized(t);
    if t.len() > 0 && t[0] == '/' {
        r.next is None && r.action == MessageAction::Run(command_of(first_word(t)))
    } else {
        match pending {
            None => r.next is None && r.action is UseMenu,
            Some(Pending::AddAll) => if name.len() == 0 {
                r.next is None && r.action is EmptyAddition
            } else {
                r.next == pending && (r.action matches MessageAction::AddAll { name: n } && n@ == name)
            },
            Some(Pending::QhStart) => match hhmm_minutes(t) {
                Some(m) => r.next == Some(Pending::QhEnd { start_min: m as i32 })
                    && r.action is AskQuietEnd,
                None => r.next == pending && r.action is BadQuietTime,
            },
            Some(Pending::QhEnd { start_min }) => match hhmm_minutes(t) {
                Some(m) => if m == start_min {
                    r.next == pending && r.action is EmptyQuietWindow
                } else {
                    r.next == Some(Pending::QhTz { start_min, end_min: m as i32 })
                        && r.action is AskQuietTz
                },
                None => r.next == pending && r.action is BadQuietTime,
            },
            Some(Pending::QhTz { start_min, end_min }) => match utc_offset_minutes(t) {
                Some(tz) => r.next is None && r.action == MessageAction::SaveQuietHours {
                    tz_offset_min: tz as i32,
                    start_min,
                    end_min,
                },
                None => r.next == pending && r.action is BadQuietTz,
            },
            Some(Pending::Rename(id)) => r.next is None && if name.len() == 0 {
                r.action is EmptyName
            } else {
                r.action matches MessageAction::Rename { id: i, name: n } && i == id && n@ == name
            },
            Some(Pending::AddHostFilter(id)) => r.next is None && if name.len() == 0 {
                r.action is EmptyName
            } else {
                r.action matches MessageAction::AddFilterHost { sub_id: i, host: h } && i == id && h@
                    == name
            },
            Some(p) => if name.len() == 0 {
                r.next is None && r.action is EmptyAddition
            } else {
                r.next == pending && (r.action matches MessageAction::AddSub { kind: k, name: n } && k@
                    == added_kind(p) && n@ == name)
            },
        }
    }
}

/// What a typed message does while `pending` is awaited.
pub fn message_step(pending: Option<Pending>, text: &str) -> (r: MessageStep)
    ensures
        message_step_is(pending, text@, r),
{
    let tv = trim_chars(&chars_of(text));
    let trimmed = string_of(&tv);
    let t = trimmed.as_str();
    if tv.len() > 0 && tv[0] == '/' {
        return MessageStep { next: None, action: MessageAction::Run(parse_command(t)) };
    }
    match pending {
        None => MessageStep { next: None, action: MessageAction::UseMenu },
        Some(Pending::QhStart) => match parse_hhmm(t) {
            Some(m) => MessageStep {
                next: Some(Pending::QhEnd { start_min: m }),
                action: MessageAction::AskQuietEnd,
            },
            None => MessageStep { next: pending, action: MessageAction::BadQuietTime },
        },
        Some(Pending::QhEnd { start_min }) => match parse_hhmm(t) {
            Some(m) => {
                if m == start_min {
                    MessageStep { next: pending, action: MessageAction::EmptyQuietWindow }
                } else {
                    MessageStep {
                        next: Some(Pending::QhTz { start_min, end_min: m }),
                        action: MessageAction::AskQuietTz,
                    }
                }
            },
            None => MessageStep { next: pending, action: MessageAction::BadQuietTime },
        },
        Some(Pending::QhTz { start_min, end_min }) => match parse_utc_offset(t) {
            Some(tz) => MessageStep {
                next: None,
                action: MessageAction::SaveQuietHours { tz_offset_min: tz, start_min, end_min },
            },
            None => MessageStep { next: pending, action: MessageAction::BadQuietTz },
        },
        Some(p) => {
            let name = sanitize_input(t);
            let empty = name.as_str().unicode_len() == 0;
            match p {
                Pending::Rename(id) => {
                    if empty {
                        MessageStep { next: None, action: MessageAction::EmptyName }
                    } else {
                        MessageStep { next: None, action: MessageAction::Rename { id, name } }
                    }
                },
                Pending::AddHostFilter(sub_id) => {
                    if empty {
                        MessageStep { next: None, action: MessageAction::EmptyName }
                    } else {
                        MessageStep {
                            next: None,
                            action: MessageAction::AddFilterHost { sub_id, host: name },
                        }
                    }
                },
                Pending::AddAll => {
                    if empty {
                        MessageStep { next: None, action: MessageAction::EmptyAddition }
                    } else {
                        MessageStep { next: pending, action: MessageAction::AddAll { name } }
                    }
                },
                _ => {
                    if empty {
                        MessageStep { next: None, action: MessageAction::EmptyAddition }
                    } else {
                        let kind = match p {
                            Pending::AddHost => KIND_HOST,
                            Pending::AddName => KIND_NAME,
                            _ => KIND_MAP,
                        };
                        MessageStep { next: pending, action: MessageAction::AddSub { kind, name } }
                    }
                },
            }
        },
    }
}

/// Whether a pending input is one the dialogs produce: the times of a
/// quiet-hours dialog are minutes of the day, and a window that awaits its
/// offset does not end where it starts.
pub open spec fn pending_ok(p: Option<Pending>) -> bool {
    match p {
        Some(Pending::QhEnd { start_min }) => 0 <= start_min < 1440,
        Some(Pending::QhTz { start_min, end_min }) => 0 <= start_min < 1440 && 0 <= end_min < 1440
            && start_min != end_min,
        _ => true,
    }
}

/// A typed message keeps the pending input well formed, and the quiet hours it
/// asks to store are a non-empty window of minutes of the day with an offset
/// of less than a day.
pub proof fn law_messages_keep_pending_well_formed(
    pending: Option<Pending>,
    text: Seq<char>,
    r: MessageStep,
)
    requires
        pending_ok(pending),
        message_step_is(pending, text, r),
    ensures
        pending_ok(r.next),
        r.action matches MessageAction::SaveQuietHours { tz_offset_min, start_min, end_min } ==> (0
            <= start_min < 1440 && 0 <= end_min < 1440 && start_min != end_min && -1440
            < tz_offset_min < 1440),
{
    law_hhmm_is_minute_of_day(trim(text));
    law_utc_offset_within_day(trim(text));
}

/// A pressed button keeps the pending input well formed.
pub proof fn law_buttons_keep_pending_well_formed(
    data: Seq<char>,
    action: CallbackAction,
    current: Option<Pending>,
)
    requires
        pending_ok(current),
        callback_action_is(data, action),
    ensures
        pending_ok(pending_after(action, current)),
{
}

/// A command drops whatever input was awaited, and a cancel button does too.
pub proof fn law_command_and_cancel_drop_pending(
    pending: Option<Pending>,
    text: Seq<char>,
    r: MessageStep,
)
    requires
        message_step_is(pending, text, r),
        trim(text).len() > 0,
        trim(text)[0] == '/',
    ensures
        r.next is None,
        pending_after(CallbackAction::Cancel, pending) is None,
{
}

/// The data `snooze:kind:pattern` or `mute:kind:pattern` written under a
/// notification reads back as the same operation, kind and pattern, whatever
/// characters the pattern holds.
pub proof fn law_silence_button_round_trip(snooze: bool, kind: Seq<char>, pattern: Seq<char>)
    requires
        is_kind(kind),
    ensures
        ({
            let op = if snooze {
                "snooze"@
            } else {
                "mute"@
            };
            silence_parts(op + seq![':'] + kind + seq![':'] + pattern) == Some(
                (
                    if snooze {
                        MuteOp::Snooze
                    } else {
                        MuteOp::Mute
                    },
                    kind,
                    pattern,
                ),
            )
        }),
{
    reveal_strlit("snooze");
    reveal_strlit("mute");
    reveal_strlit("map");
    reveal_strlit("host");
    reveal_strlit("name");
    let op = if snooze {
        "snooze"@
    } else {
        "mute"@
    };
    let d = op + seq![':'] + kind + seq![':'] + pattern;
    assert(forall|j: int| 0 <= j < op.len() ==> op[j] != ':');
    assert forall|j: int| 0 <= j < op.len() implies d[j] != ':' by {
        assert(d[j] == op[j]);
    }
    assert(d[op.len() as int] == ':');
    lemma_index_of_is(d, ':', op.len() as int);
    assert(d.take(op.len() as int) =~= op);
    let rest = d.subrange(op.len() as int + 1, d.len() as int);
    assert(rest =~= kind + seq![':'] + pattern);
    assert(forall|j: int| 0 <= j < kind.len() ==> kind[j] != ':');
    assert forall|j: int| 0 <= j < kind.len() implies rest[j] != ':' by {
        assert(rest[j] == kind[j]);
    }
    assert(rest[kind.len() as int] == ':');
    lemma_index_of_is(rest, ':', kind.len() as int);
    assert(rest.take(kind.len() as int) =~= kind);
    assert(rest.subrange(kind.len() as int + 1, rest.len() as int) =~= pattern);
    assert(op != "snooze"@ ==> op == "mute"@);
    assert("snooze"@ != "mute"@) by {
        assert("snooze"@.len() != "mute"@.len());
    }
}

/// The data of a button for operation `op` on subscription `id`:
/// `op:id`, or `op:id:extra` when there is an extra part.
pub open spec fn sub_data(op: Seq<char>, id: int, extra: Option<Seq<char>>) -> Seq<char> {
    let base = op + seq![':'] + signed_decimal(id);
    match extra {
        Some(e) => base + seq![':'] + e,
        None => base,
    }
}

/// The data of a button for operation `op` on subscription `id`.
pub fn sub_button_data(op: &str, id: i64, extra: Option<&str>) -> (r: String)
    ensures
        r@ == sub_data(op@, id as int, match extra {
            Some(e) => Some(e@),
            None => None,
        }),
{
    let mut v = chars_of(op);
    v.push(':');
    let digits = signed_decimal_chars(id);
    append_chars(&mut v, &digits);
    match extra {
        Some(e) => {
            v.push(':');
            append_str(&mut v, e);
        },
        None => {},
    }
    string_of(&v)
}

/// The data of a snooze or mute button under a notification about a
/// subscription of `kind` with `pattern`.
pub open spec fn silence_data(op: MuteOp, kind: Seq<char>, pattern: Seq<char>) -> Seq<char> {
    let word = match op {
        MuteOp::Snooze => "snooze"@,
        MuteOp::Mute => "mute"@,
    };
    word + seq![':'] + kind + seq![':'] + pattern
}

/// The data of a snooze or mute button: `snooze:kind:pattern` or `mute:kind:pattern`.
pub fn silence_button_data(op: MuteOp, kind: &str, pattern: &str) -> (r: String)
    ensures
        r@ == silence_data(op, kind@, pattern@),
{
    let mut v = match op {
        MuteOp::Snooze => chars_of("snooze"),
        MuteOp::Mute => chars_of("mute"),
    };
    v.push(':');
    append_str(&mut v, kind);
    v.push(':');
    append_str(&mut v, pattern);
    string_of(&v)
}

/// The data of a subscription button reads back as the same operation, id
/// and extra part, for any operation word without a colon and any extra part.
pub proof fn law_sub_button_round_trip(op: Seq<char>, id: i64, extra: Option<Seq<char>>)
    requires
        forall|j: int| 0 <= j < op.len() ==> op[j] != ':',
    ensures
        sub_callback_parts(sub_data(op, id as int, extra)) == Some((op, id as int, extra)),
{
    let n = signed_decimal(id as int);
    lemma_signed_decimal_reads_back(id as int);
    let d = sub_data(op, id as int, extra);
    let base = op + seq![':'] + n;
    assert forall|j: int| 0 <= j < op.len() implies d[j] != ':' by {
        assert(d[j] == op[j]);
    }
    assert(d[op.len() as int] == ':');
    lemma_index_of_is(d, ':', op.len() as int);
    assert(d.take(op.len() as int) =~= op);
    let rest = d.subrange(op.len() as int + 1, d.len() as int);
    assert forall|j: int| 0 <= j < n.len() implies rest[j] != ':' by {
        assert(rest[j] == n[j]);
    }
    match extra {
        Some(e) => {
            assert(rest =~= n + seq![':'] + e);
            assert(rest[n.len() as int] == ':');
            lemma_index_of_is(rest, ':', n.len() as int);
            assert(rest.take(n.len() as int) =~= n);
            assert(rest.subrange(n.len() as int + 1, rest.len() as int) =~= e);
        },
        None => {
            assert(rest =~= n);
            lemma_index_of_is(rest, ':', n.len() as int);
        },
    }
}

/// Pressing a snooze or mute button under a notification asks to silence
/// exactly the subscription kind and pattern the button was made for.
pub proof fn law_silence_button_routes_back(op: MuteOp, kind: Seq<char>, pattern: Seq<char>, r: CallbackAction)
    requires
        is_kind(kind),
        callback_action_is(silence_data(op, kind, pattern), r),
    ensures
        r matches CallbackAction::Silence { op: o, kind: k, pattern: p } && o == op && k@ == kind
            && p@ == pattern,
{
    let d = silence_data(op, kind, pattern);
    law_silence_button_round_trip(op == MuteOp::Snooze, kind, pattern);
    reveal_strlit("lang");
    reveal_strlit("menu");
    reveal_strlit("manage");
    reveal_strlit("settings");
    reveal_strlit("quiet");
    reveal_strlit("qh_setup");
    reveal_strlit("qh_off");
    reveal_strlit("notif");
    reveal_strlit("addmap");
    reveal_strlit("addhost");
    reveal_strlit("addname");
    reveal_strlit("addall");
    reveal_strlit("cancel");
    reveal_strlit("done");
    reveal_strlit("check");
    reveal_strlit("snooze");
    reveal_strlit("mute");
    reveal_strlit("map");
    reveal_strlit("host");
    reveal_strlit("name");
    assert(d.len() > 8);
    assert(keyword_action(d) is None);
}

/// Each fixed button word routes to an action of its own: two words that name
/// the same action are the same word. So the button that turns quiet hours off
/// turns them off and leaves the awaited input as it was, while only the set-up
/// button starts the quiet-hours dialog.
pub proof fn law_button_words_route_apart(
    d1: Seq<char>,
    d2: Seq<char>,
    r: CallbackAction,
    current: Option<Pending>,
)
    ensures
        keyword_action(d1) is Some && keyword_action(d1) == keyword_action(d2) ==> d1 == d2,
        callback_action_is("qh_off"@, r) ==> r is DisableQuietHours && pending_after(r, current)
            == current,
        callback_action_is("qh_setup"@, r) ==> pending_after(r, current) == Some(Pending::QhStart),
{
    reveal_strlit("lang");
    reveal_strlit("menu");
    reveal_strlit("manage");
    reveal_strlit("settings");
    reveal_strlit("quiet");
    reveal_strlit("qh_setup");
    reveal_strlit("qh_off");
    assert("qh_off"@ != "manage"@) by {
        assert("qh_off"@[0] != "manage"@[0]);
    }
    assert("qh_off"@ != "lang"@ && "qh_off"@ != "menu"@ && "qh_off"@ != "settings"@ && "qh_off"@
        != "quiet"@ && "qh_off"@ != "qh_setup"@) by {
        assert("qh_off"@.len() == 6);
    }
    assert("qh_setup"@ != "settings"@) by {
        assert("qh_setup"@[0] != "settings"@[0]);
    }
    assert("qh_setup"@ != "lang"@ && "qh_setup"@ != "menu"@ && "qh_setup"@ != "manage"@
        && "qh_setup"@ != "quiet"@) by {
        assert("qh_setup"@.len() == 8);
    }
    assert(keyword_action("qh_off"@) == Some(CallbackAction::DisableQuietHours));
    assert(keyword_action("qh_setup"@) == Some(CallbackAction::SetUpQuietHours));
}

/// A subscription added from a pending addition has the kind the addition was
/// started for: the kind added leads back to the same pending input, which
/// stays awaited for the next name, and a game-name addition adds a game-name
/// subscription (a host addition a host one, a map addition a map one).
pub proof fn law_addition_keeps_its_kind(p: Pending, text: Seq<char>, r: MessageStep)
    requires
        p is AddMap || p is AddHost || p is AddName,
        message_step_is(Some(p), text, r),
        r.action is AddSub,
    ensures
        r.action matches MessageAction::AddSub { kind: k, .. } && pending_for_kind(k@) == p,
        r.next == Some(p),
        p is AddName ==> (r.action matches MessageAction::AddSub { kind: k, .. } && k@ == "name"@),
        p is AddHost ==> (r.action matches MessageAction::AddSub { kind: k, .. } && k@ == "host"@),
        p is AddMap ==> (r.action matches MessageAction::AddSub { kind: k, .. } && k@ == "map"@),
{
    reveal_strlit("map");
    reveal_strlit("host");
    reveal_strlit("name");
    assert(KIND_HOST@ != KIND_MAP@ && KIND_HOST@ != KIND_NAME@ && KIND_NAME@ != KIND_MAP@) by {
        assert(KIND_HOST@[0] != KIND_MAP@[0]);
        assert(KIND_HOST@[0] != KIND_NAME@[0]);
        assert(KIND_NAME@[0] != KIND_MAP@[0]);
    }
}

/// The description of a subscription kind in texts `t` (the map one for an unknown kind).
pub open spec fn kind_desc_of(kind: Seq<char>, t: T) -> &'static str {
    if kind == KIND_HOST@ {
        t.sub_desc_host
    } else if kind == KIND_NAME@ {
        t.sub_desc_name
    } else {
        t.sub_desc_map
    }
}

/// `label: value`.
pub open spec fn field(label: Seq<char>, value: Seq<char>) -> Seq<char> {
    label + seq![':', ' '] + value
}

/// `label: value` as characters.
fn field_chars(label: &str, value: &str) -> (r: Vec<char>)
    ensures
        r@ == field(label@, value@),
{
    let mut v = chars_of(label);
    v.push(':');
    v.push(' ');
    append_str(&mut v, value);
    assert(v@ =~= field(label@, value@));
    v
}

/// The screen of one subscription: its number, name, kind, status and what it does.
pub open spec fn sub_view_text_of(s: Sub, t: T) -> Seq<char> {
    replace_all(t.sub_id@, "{id}"@, signed_decimal(s.id as int)) + seq!['\n', '\n'] + field(
        t.sub_name@,
        s.pattern@,
    ) + seq!['\n'] + field(t.sub_type@, kind_label_of(s.kind@, t)@) + seq!['\n'] + field(
        t.sub_status@,
        if s.enabled {
            t.sub_enabled@
        } else {
            t.sub_disabled@
        },
    ) + seq!['\n', '\n'] + kind_desc_of(s.kind@, t)@
}

/// The text of the screen of subscription `s`.
pub fn sub_view_text(s: &Sub, t: &T) -> (r: String)
    ensures
        r@ == sub_view_text_of(*s, *t),
{
    proof {
        reveal_strlit("{id}");
    }
    let nl: Vec<char> = vec!['\n'];
    let nl2: Vec<char> = vec!['\n', '\n'];
    let desc = if str_eq(s.kind.as_str(), KIND_HOST) {
        t.sub_desc_host
    } else if str_eq(s.kind.as_str(), KIND_NAME) {
        t.sub_desc_name
    } else {
        t.sub_desc_map
    };
    let status = if s.enabled {
        t.sub_enabled
    } else {
        t.sub_disabled
    };
    let mut out = fill(&chars_of(t.sub_id), "{id}", &signed_decimal_chars(s.id));
    append_chars(&mut out, &nl2);
    append_chars(&mut out, &field_chars(t.sub_name, s.pattern.as_str()));
    append_chars(&mut out, &nl);
    append_chars(&mut out, &field_chars(t.sub_type, kind_label(s.kind.as_str(), t)));
    append_chars(&mut out, &nl);
    append_chars(&mut out, &field_chars(t.sub_status, status));
    append_chars(&mut out, &nl2);
    append_str(&mut out, desc);
    string_of(&out)
}

/// How many of `subs` are enabled.
pub open spec fn count_enabled(subs: Seq<Sub>) -> nat
    decreases subs.len(),
{
    if subs.len() == 0 {
        0
    } else {
        count_enabled(subs.drop_last()) + if subs.last().enabled {
            1nat
        } else {
            0nat
        }
    }
}

/// The lines `• pattern` of the enabled subscriptions of `kind`, in order.
pub open spec fn kind_items(subs: Seq<Sub>, kind: Seq<char>) -> Seq<char>
    decreases subs.len(),
{
    if subs.len() == 0 {
        Seq::empty()
    } else {
        kind_items(subs.drop_last(), kind) + if subs.last().enabled && subs.last().kind@ == kind {
            seq!['\n', '•', ' '] + subs.last().pattern@
        } else {
            Seq::empty()
        }
    }
}

/// The section of the status that lists the enabled subscriptions of `kind`
/// under `label`; nothing when there are none.
pub open spec fn kind_section(subs: Seq<Sub>, kind: Seq<char>, label: Seq<char>) -> Seq<char> {
    let items = kind_items(subs, kind);
    if items.len() == 0 {
        Seq::empty()
    } else {
        seq!['\n', '\n'] + label + seq![':'] + items
    }
}

/// The head of a user's status: whether notifications are on, how many
/// subscriptions there are and how many are enabled, then the enabled ones
/// by kind (maps, hosts, game names).
pub open spec fn status_summary_of(t: T, notifications_on: bool, subs: Seq<Sub>) -> Seq<char> {
    let active = count_enabled(subs);
    t.st_hdr@ + seq!['\n', '\n'] + field(
        t.st_notifications@,
        if notifications_on {
            t.st_enabled@
        } else {
            t.st_disabled@
        },
    ) + seq!['\n'] + field(t.st_total@, decimal(subs.len())) + seq!['\n'] + field(
        t.st_active_count@,
        decimal(active),
    ) + if active == 0 {
        seq!['\n', '\n'] + t.st_no_active@
    } else {
        kind_section(subs, KIND_MAP@, t.kind_map@) + kind_section(subs, KIND_HOST@, t.kind_host@)
            + kind_section(subs, KIND_NAME@, t.kind_name@)
    }
}

/// The section listing `items` under `label`.
fn section_chars(items: &Vec<char>, label: &str) -> (r: Vec<char>)
    ensures
        r@ == if items@.len() == 0 {
            Seq::empty()
        } else {
            seq!['\n', '\n'] + label@ + seq![':'] + items@
        },
{
    let mut out: Vec<char> = Vec::new();
    if items.len() == 0 {
        return out;
    }
    out.push('\n');
    out.push('\n');
    append_str(&mut out, label);
    out.push(':');
    append_chars(&mut out, items);
    assert(out@ =~= seq!['\n', '\n'] + label@ + seq![':'] + items@);
    out
}

/// `label: value` for a number.
fn number_field(label: &str, n: u64) -> (r: Vec<char>)
    ensures
        r@ == field(label@, decimal(n as nat)),
{
    let mut v = chars_of(label);
    v.push(':');
    v.push(' ');
    append_chars(&mut v, &decimal_chars(n));
    assert(v@ =~= field(label@, decimal(n as nat)));
    v
}

/// The lines of the enabled subscriptions of `subs` by kind: maps, hosts,
/// game names; and how many are enabled.
fn collect_items(subs: &Vec<Sub>) -> (r: (u64, Vec<char>, Vec<char>, Vec<char>))
    requires
        subs.len() < u64::MAX,
    ensures
        r.0 == count_enabled(subs@),
        r.1@ == kind_items(subs@, KIND_MAP@),
        r.2@ == kind_items(subs@, KIND_HOST@),
        r.3@ == kind_items(subs@, KIND_NAME@),
{
    let mut active: u64 = 0;
    let mut maps: Vec<char> = Vec::new();
    let mut hosts: Vec<char> = Vec::new();
    let mut names: Vec<char> = Vec::new();
    let mut i: usize = 0;
    while i < subs.len()
        invariant
            i <= subs.len() < u64::MAX,
            active == count_enabled(subs@.take(i as int)),
            active <= i,
            maps@ == kind_items(subs@.take(i as int), KIND_MAP@),
            hosts@ == kind_items(subs@.take(i as int), KIND_HOST@),
            names@ == kind_items(subs@.take(i as int), KIND_NAME@),
        decreases subs.len() - i,
    {
        let s = &subs[i];
        let ghost pre = subs@.take(i as int);
        assert(subs@.take(i + 1).drop_last() =~= pre);
        assert(subs@.take(i + 1).last() == *s);
        let mut line: Vec<char> = Vec::new();
        if s.enabled {
            active = active + 1;
            line.push('\n');
            line.push('•');
            line.push(' ');
            append_str(&mut line, s.pattern.as_str());
            assert(line@ =~= seq!['\n', '•', ' '] + s.pattern@);
        }
        let empty: Vec<char> = Vec::new();
        let k = s.kind.as_str();
        append_chars(&mut maps, if str_eq(k, KIND_MAP) { &line } else { &empty });
        append_chars(&mut hosts, if str_eq(k, KIND_HOST) { &line } else { &empty });
        append_chars(&mut names, if str_eq(k, KIND_NAME) { &line } else { &empty });
        i = i + 1;
    }
    assert(subs@.take(subs.len() as int) =~= subs@);
    (active, maps, hosts, names)
}

/// The head of the status of a user with notifications `notifications_on`
/// and subscriptions `subs`.
fn status_summary(t: &T, notifications_on: bool, subs: &Vec<Sub>) -> (r: Vec<char>)
    requires
        subs.len() < u64::MAX,
    ensures
        r@ == status_summary_of(*t, notifications_on, subs@),
{
    let (active, maps, hosts, names) = collect_items(subs);
    let nl: Vec<char> = vec!['\n'];
    let nl2: Vec<char> = vec!['\n', '\n'];
    let tail = if active == 0 {
        let mut v = vec!['\n', '\n'];
        append_str(&mut v, t.st_no_active);
        v
    } else {
        let mut v = section_chars(&maps, t.kind_map);
        append_chars(&mut v, &section_chars(&hosts, t.kind_host));
        append_chars(&mut v, &section_chars(&names, t.kind_name));
        v
    };
    let mut out = chars_of(t.st_hdr);
    append_chars(&mut out, &nl2);
    append_chars(
        &mut out,
        &field_chars(
            t.st_notifications,
            if notifications_on {
                t.st_enabled
            } else {
                t.st_disabled
            },
        ),
    );
    append_chars(&mut out, &nl);
    append_chars(&mut out, &number_field(t.st_total, subs.len() as u64));
    append_chars(&mut out, &nl);
    append_chars(&mut out, &number_field(t.st_active_count, active));
    append_chars(&mut out, &tail);
    out
}

/// A literal as a button's data.
fn data_of(s: &str) -> (r: String)
    ensures
        r@ == s@,
{
    string_of(&chars_of(s))
}

/// The label of the notifications switch.
pub open spec fn notif_label_of(t: T, on: bool) -> &'static str {
    if on {
        t.btn_notif_on
    } else {
        t.btn_notif_off
    }
}

/// Whether rows `i` and `i + 1` are the add buttons: map and game name, then
/// host and all kinds.
pub open spec fn add_rows_at(rows: Seq<Vec<Button>>, i: int, t: T) -> bool {
    &&& rows[i]@.len() == 2
    &&& button_is(rows[i]@[0], t.btn_add_map@, "addmap"@)
    &&& button_is(rows[i]@[1], t.btn_add_name@, "addname"@)
    &&& rows[i + 1]@.len() == 2
    &&& button_is(rows[i + 1]@[0], t.btn_add_host@, "addhost"@)
    &&& button_is(rows[i + 1]@[1], t.btn_add_all@, "addall"@)
}

fn push_add_rows(rows: &mut Vec<Vec<Button>>, t: &T)
    ensures
        final(rows)@.len() == old(rows)@.len() + 2,
        forall|i: int| 0 <= i < old(rows)@.len() ==> final(rows)@[i] == old(rows)@[i],
        add_rows_at(final(rows)@, old(rows)@.len() as int, *t),
{
    let mut a: Vec<Button> = Vec::new();
    a.push(button(t.btn_add_map, data_of("addmap")));
    a.push(button(t.btn_add_name, data_of("addname")));
    let mut b: Vec<Button> = Vec::new();
    b.push(button(t.btn_add_host, data_of("addhost")));
    b.push(button(t.btn_add_all, data_of("addall")));
    rows.push(a);
    rows.push(b);
}

/// Whether rows `i` on are the footer of the main menu and the subscription
/// list: the notifications switch beside the settings, then the language.
pub open spec fn switch_rows_at(rows: Seq<Vec<Button>>, i: int, t: T, on: bool, settings_label: Seq<char>) -> bool {
    &&& rows[i]@.len() == 2
    &&& button_is(rows[i]@[0], notif_label_of(t, on)@, "notif"@)
    &&& button_is(rows[i]@[1], settings_label, "settings"@)
    &&& rows[i + 1]@.len() == 1
    &&& button_is(rows[i + 1]@[0], t.btn_lang@, "lang"@)
}

fn push_switch_rows(rows: &mut Vec<Vec<Button>>, t: &T, on: bool, settings_label: &str)
    ensures
        final(rows)@.len() == old(rows)@.len() + 2,
        forall|i: int| 0 <= i < old(rows)@.len() ==> final(rows)@[i] == old(rows)@[i],
        switch_rows_at(final(rows)@, old(rows)@.len() as int, *t, on, settings_label@),
{
    let mut a: Vec<Button> = Vec::new();
    a.push(button(if on { t.btn_notif_on } else { t.btn_notif_off }, data_of("notif")));
    a.push(button(settings_label, data_of("settings")));
    let mut b: Vec<Button> = Vec::new();
    b.push(button(t.btn_lang, data_of("lang")));
    rows.push(a);
    rows.push(b);
}

/// The main menu's buttons: the subscription list, the add buttons, the
/// notifications switch and the settings, the language.
pub fn main_menu_buttons(t: &T, notifications_on: bool, manage_label: &str, settings_label: &str) -> (rows:
    Vec<Vec<Button>>)
    ensures
        rows@.len() == 5,
        rows@[0]@.len() == 1,
        button_is(rows@[0]@[0], manage_label@, "manage"@),
        add_rows_at(rows@, 1, *t),
        switch_rows_at(rows@, 3, *t, notifications_on, settings_label@),
{
    let mut rows: Vec<Vec<Button>> = Vec::new();
    let mut first: Vec<Button> = Vec::new();
    first.push(button(manage_label, data_of("manage")));
    rows.push(first);
    push_add_rows(&mut rows, t);
    push_switch_rows(&mut rows, t, notifications_on, settings_label);
    rows
}

/// The label of a subscription's button in the list: its kind and pattern.
pub open spec fn sub_button_label(s: Sub, t: T) -> Seq<char> {
    kind_label_of(s.kind@, t)@ + seq![' '] + s.pattern@
}

/// The buttons of the subscription list: one per subscription, opening it;
/// then the add buttons, the notifications switch and the settings, the
/// language, and the main menu.
pub fn manage_buttons(t: &T, subs: &Vec<Sub>, notifications_on: bool, settings_label: &str) -> (rows:
    Vec<Vec<Button>>)
    ensures
        rows@.len() == subs@.len() + 5,
        forall|i: int|
            0 <= i < subs@.len() ==> (#[trigger] rows@[i])@.len() == 1 && button_is(
                rows@[i]@[0],
                sub_button_label(subs@[i], *t),
                sub_data("map"@, subs@[i].id as int, None),
            ),
        add_rows_at(rows@, subs@.len() as int, *t),
        switch_rows_at(rows@, subs@.len() as int + 2, *t, notifications_on, settings_label@),
        rows@[subs@.len() as int + 4]@.len() == 1,
        button_is(rows@[subs@.len() as int + 4]@[0], t.btn_menu@, "menu"@),
{
    let mut rows: Vec<Vec<Button>> = Vec::new();
    let mut i: usize = 0;
    while i < subs.len()
        invariant
            i <= subs.len(),
            rows@.len() == i,
            forall|k: int|
                0 <= k < i ==> (#[trigger] rows@[k])@.len() == 1 && button_is(
                    rows@[k]@[0],
                    sub_button_label(subs@[k], *t),
                    sub_data("map"@, subs@[k].id as int, None),
                ),
        decreases subs.len() - i,
    {
        let s = &subs[i];
        let mut label = chars_of(kind_label(s.kind.as_str(), t));
        label.push(' ');
        append_str(&mut label, s.pattern.as_str());
        assert(label@ =~= sub_button_label(*s, *t));
        let mut row: Vec<Button> = Vec::new();
        row.push(Button { label: string_of(&label), data: sub_button_data("map", s.id, None) });
        rows.push(row);
        i = i + 1;
    }
    push_add_rows(&mut rows, t);
    push_switch_rows(&mut rows, t, notifications_on, settings_label);
    let mut last: Vec<Button> = Vec::new();
    last.push(button(t.btn_menu, data_of("menu")));
    rows.push(last);
    rows
}

/// The buttons of a subscription's screen: switch it on or off; rename,
/// delete and, for map and name subscriptions, the host filter; back to the
/// list and to the menu.
pub fn sub_view_buttons(s: &Sub, t: &T, hosts_label: &str) -> (rows: Vec<Vec<Button>>)
    ensures
        rows@.len() == 3,
        rows@[0]@.len() == 1,
        button_is(
            rows@[0]@[0],
            if s.enabled {
                t.btn_disable@
            } else {
                t.btn_enable@
            },
            sub_data("toggle"@, s.id as int, None),
        ),
        rows@[1]@.len() == if filter_applies(s.kind@) {
            3int
        } else {
            2int
        },
        button_is(rows@[1]@[0], t.btn_rename@, sub_data("rename"@, s.id as int, None)),
        button_is(rows@[1]@[1], t.btn_delete@, sub_data("del"@, s.id as int, None)),
        filter_applies(s.kind@) ==> button_is(rows@[1]@[2], hosts_label@, sub_data("hosts"@, s.id as int, None)),
        rows@[2]@.len() == 2,
        button_is(rows@[2]@[0], t.btn_to_list@, "manage"@),
        button_is(rows@[2]@[1], t.btn_menu@, "menu"@),
{
    let mut top: Vec<Button> = Vec::new();
    top.push(button(if s.enabled { t.btn_disable } else { t.btn_enable }, sub_button_data("toggle", s.id, None)));
    let mut mid: Vec<Button> = Vec::new();
    mid.push(button(t.btn_rename, sub_button_data("rename", s.id, None)));
    mid.push(button(t.btn_delete, sub_button_data("del", s.id, None)));
    if str_eq(s.kind.as_str(), KIND_MAP) || str_eq(s.kind.as_str(), KIND_NAME) {
        mid.push(button(hosts_label, sub_button_data("hosts", s.id, None)));
    }
    let mut bottom: Vec<Button> = Vec::new();
    bottom.push(button(t.btn_to_list, data_of("manage")));
    bottom.push(button(t.btn_menu, data_of("menu")));
    let mut rows: Vec<Vec<Button>> = Vec::new();
    rows.push(top);
    rows.push(mid);
    rows.push(bottom);
    rows
}

/// The buttons of a host filter's screen: for each host, one that goes back
/// and one that removes it; then switch the mode, add a host, back.
pub fn host_filter_buttons(sub_id: i64, hosts: &Vec<String>, t: &T, mode_label: &str, add_label: &str) -> (rows:
    Vec<Vec<Button>>)
    ensures
        rows@.len() == hosts@.len() + 3,
        forall|i: int|
            0 <= i < hosts@.len() ==> (#[trigger] rows@[i])@.len() == 2 && button_is(
                rows@[i]@[0],
                hosts@[i]@,
                sub_data("hback"@, sub_id as int, None),
            ) && button_is(rows@[i]@[1], "🗑"@, sub_data("hdel"@, sub_id as int, Some(hosts@[i]@))),
        rows@[hosts@.len() as int]@.len() == 1,
        button_is(rows@[hosts@.len() as int]@[0], mode_label@, sub_data("hmode"@, sub_id as int, None)),
        rows@[hosts@.len() as int + 1]@.len() == 1,
        button_is(rows@[hosts@.len() as int + 1]@[0], add_label@, sub_data("hadd"@, sub_id as int, None)),
        rows@[hosts@.len() as int + 2]@.len() == 1,
        button_is(rows@[hosts@.len() as int + 2]@[0], t.btn_to_list@, sub_data("hback"@, sub_id as int, None)),
{
    let mut rows: Vec<Vec<Button>> = Vec::new();
    let mut i: usize = 0;
    while i < hosts.len()
        invariant
            i <= hosts.len(),
            rows@.len() == i,
            forall|k: int|
                0 <= k < i ==> (#[trigger] rows@[k])@.len() == 2 && button_is(
                    rows@[k]@[0],
                    hosts@[k]@,
                    sub_data("hback"@, sub_id as int, None),
                ) && button_is(rows@[k]@[1], "🗑"@, sub_data("hdel"@, sub_id as int, Some(hosts@[k]@))),
        decreases hosts.len() - i,
    {
        let h = hosts[i].as_str();
        let mut row: Vec<Button> = Vec::new();
        row.push(button(h, sub_button_data("hback", sub_id, None)));
        row.push(button("🗑", sub_button_data("hdel", sub_id, Some(h))));
        rows.push(row);
        i = i + 1;
    }
    let mut a: Vec<Button> = Vec::new();
    a.push(button(mode_label, sub_button_data("hmode", sub_id, None)));
    let mut b: Vec<Button> = Vec::new();
    b.push(button(add_label, sub_button_data("hadd", sub_id, None)));
    let mut c: Vec<Button> = Vec::new();
    c.push(button(t.btn_to_list, sub_button_data("hback", sub_id, None)));
    rows.push(a);
    rows.push(b);
    rows.push(c);
    rows
}

/// What a chat reports of its pinned message.
pub enum ChatPin {
    /// The chat could not be looked up.
    Unknown,
    /// A private chat.
    Private,
    /// A group; `pinned_from` is the sender of its pinned message, if there is
    /// one and it has a sender.
    Group { pinned_from: Option<u64> },
}

/// Whether a screen just shown must be pinned: when it is a new message, or
/// when the chat's pinned message is not the bot's (a private chat, or one
/// that could not be looked up, counts as pinned by the bot).
pub fn needs_pin(is_new: bool, chat: &ChatPin, bot_id: u64) -> (r: bool)
    ensures
        r == (is_new || match *chat {
            ChatPin::Unknown => false,
            ChatPin::Private => false,
            ChatPin::Group { pinned_from } => pinned_from != Some(bot_id),
        }),
{
    let pinned_by_me = match chat {
        ChatPin::Unknown => true,
        ChatPin::Private => true,
        ChatPin::Group { pinned_from } => match pinned_from {
            Some(id) => *id == bot_id,
            None => false,
        },
    };
    is_new || !pinned_by_me
}

/// The reply to a name typed to add a subscription of `kind`: added (with the
/// kind's icon and the name), or already there; then the invitation to add more.
pub open spec fn added_text_of(t: T, kind: Seq<char>, name: Seq<char>, added: bool) -> Seq<char> {
    (if added {
        replace_all(replace_all(t.msg_added@, "{icon}"@, kind_icon_of(kind)), "{name}"@, name)
    } else {
        t.msg_duplicate@
    }) + seq!['\n', '\n'] + t.msg_add_more@
}

/// The reply to a name typed to add a subscription of `kind`.
pub fn added_text(t: &T, kind: &str, name: &str, added: bool) -> (r: String)
    ensures
        r@ == added_text_of(*t, kind@, name@, added),
{
    proof {
        reveal_strlit("{icon}");
        reveal_strlit("{name}");
    }
    let mut out = if added {
        fill(&fill(&chars_of(t.msg_added), "{icon}", &chars_of(kind_icon(kind))), "{name}", &chars_of(name))
    } else {
        chars_of(t.msg_duplicate)
    };
    let nl2: Vec<char> = vec!['\n', '\n'];
    append_chars(&mut out, &nl2);
    append_str(&mut out, t.msg_add_more);
    string_of(&out)
}

/// The item `icon label` naming subscription kind `kind` in a reply.
pub open spec fn kind_item(kind: Seq<char>, t: T) -> Seq<char> {
    kind_icon_of(kind) + seq![' '] + kind_label_of(kind, t)@
}

/// The items of the kinds that were added, in the order map, host, game name.
pub open spec fn added_items(t: T, map_added: bool, host_added: bool, name_added: bool) -> Seq<Seq<char>> {
    (if map_added {
        seq![kind_item(KIND_MAP@, t)]
    } else {
        Seq::empty()
    }) + (if host_added {
        seq![kind_item(KIND_HOST@, t)]
    } else {
        Seq::empty()
    }) + (if name_added {
        seq![kind_item(KIND_NAME@, t)]
    } else {
        Seq::empty()
    })
}

/// The reply to a name typed to add it under all kinds: the kinds that were
/// added, or that all were there already; then the invitation to add more.
pub open spec fn add_all_text_of(t: T, name: Seq<char>, map_added: bool, host_added: bool, name_added: bool) -> Seq<char> {
    let items = added_items(t, map_added, host_added, name_added);
    if items.len() == 0 {
        t.msg_duplicate@ + seq!['\n', '\n'] + t.msg_add_more@
    } else {
        replace_all(
            replace_all(replace_all(t.msg_add_all_done@, "{name}"@, name), "{list}"@, joined(items, ", "@)),
            "{more}"@,
            t.msg_add_more@,
        )
    }
}

fn append_item(list: &mut Vec<char>, items: Ghost<Seq<Seq<char>>>, count: usize, item: &Vec<char>)
    requires
        old(list)@ == joined(items@, ", "@),
        count == items@.len(),
    ensures
        final(list)@ == joined(items@.push(item@), ", "@),
{
    proof {
        reveal_strlit(", ");
        assert(items@.push(item@).drop_last() =~= items@);
    }
    if count > 0 {
        append_str(list, ", ");
        append_chars(list, item);
    } else {
        append_chars(list, item);
        assert(list@ =~= item@);
    }
}


/// The item naming `kind`, as characters.
fn kind_item_chars(kind: &str, t: &T) -> (r: Vec<char>)
    ensures
        r@ == kind_item(kind@, *t),
{
    let mut v = chars_of(kind_icon(kind));
    v.push(' ');
    append_str(&mut v, kind_label(kind, t));
    assert(v@ =~= kind_item(kind@, *t));
    v
}

/// The reply to a name typed to add it under all three kinds, given which of
/// the map, host and game-name subscriptions were added.
pub fn add_all_text(t: &T, name: &str, map_added: bool, host_added: bool, name_added: bool) -> (r: String)
    ensures
        r@ == add_all_text_of(*t, name@, map_added, host_added, name_added),
{
    proof {
        reveal_strlit("{name}");
        reveal_strlit("{list}");
        reveal_strlit("{more}");
    }
    let ghost mut items: Seq<Seq<char>> = Seq::empty();
    let mut list: Vec<char> = Vec::new();
    let mut count: usize = 0;
    if map_added {
        let item = kind_item_chars(KIND_MAP, t);
        append_item(&mut list, Ghost(items), count, &item);
        proof {
            items = items.push(item@);
        }
        count = count + 1;
    }
    if host_added {
        let item = kind_item_chars(KIND_HOST, t);
        append_item(&mut list, Ghost(items), count, &item);
        proof {
            items = items.push(item@);
        }
        count = count + 1;
    }
    if name_added {
        let item = kind_item_chars(KIND_NAME, t);
        append_item(&mut list, Ghost(items), count, &item);
        proof {
            items = items.push(item@);
        }
        count = count + 1;
    }
    assert(items =~= added_items(*t, map_added, host_added, name_added));
    if !map_added && !host_added && !name_added {
        let mut out = chars_of(t.msg_duplicate);
        let nl2: Vec<char> = vec!['\n', '\n'];
        append_chars(&mut out, &nl2);
        append_str(&mut out, t.msg_add_more);
        return string_of(&out);
    }
    let filled = fill(&fill(&chars_of(t.msg_add_all_done), "{name}", &chars_of(name)), "{list}", &list);
    string_of(&fill(&filled, "{more}", &chars_of(t.msg_add_more)))
}

/// The texts of the status sections on mutes and quiet hours.
pub struct StatusTexts {
    pub muted_hdr: &'static str,
    pub muted_empty: &'static str,
    pub forever: &'static str,
    pub hours: &'static str,
    pub minutes: &'static str,
    pub remaining: &'static str,
    pub quiet_hdr: &'static str,
    pub quiet_off: &'static str,
}

/// How long mute `m` lasts at `now`: for good, or the hours and minutes left
/// (none when it has run out).
pub open spec fn mute_duration(m: MapMute, now: i64, x: StatusTexts) -> Seq<char> {
    match m.until {
        None => x.forever@,
        Some(u) => {
            let secs = if u - now > 0 {
                u - now
            } else {
                0
            };
            decimal((secs / 3600) as nat) + x.hours@ + seq![' '] + decimal(((secs % 3600) / 60) as nat)
                + x.minutes@ + seq![' '] + x.remaining@
        },
    }
}

/// The line of mute `m`: its kind, pattern and duration.
pub open spec fn mute_line(m: MapMute, now: i64, t: T, x: StatusTexts) -> Seq<char> {
    seq!['\n', '•', ' '] + kind_label_of(m.kind@, t)@ + seq![' '] + m.pattern@ + seq![' ', '—', ' ']
        + mute_duration(m, now, x)
}

/// The lines of `mutes`, in order.
pub open spec fn mute_lines(mutes: Seq<MapMute>, now: i64, t: T, x: StatusTexts) -> Seq<char>
    decreases mutes.len(),
{
    if mutes.len() == 0 {
        Seq::empty()
    } else {
        mute_lines(mutes.drop_last(), now, t, x) + mute_line(mutes.last(), now, t, x)
    }
}

/// The status section on mutes.
pub open spec fn mute_section(mutes: Seq<MapMute>, now: i64, t: T, x: StatusTexts) -> Seq<char> {
    seq!['\n', '\n'] + x.muted_hdr@ + seq![':'] + if mutes.len() == 0 {
        seq!['\n'] + x.muted_empty@
    } else {
        mute_lines(mutes, now, t, x)
    }
}

/// The status section on quiet hours.
pub open spec fn quiet_section(q: Option<QuietHours>, x: StatusTexts) -> Seq<char> {
    seq!['\n', '\n'] + x.quiet_hdr@ + seq![':'] + match q {
        None => seq!['\n'] + x.quiet_off@,
        Some(q) => seq!['\n', '•', ' '] + clock_text(q.start_min as int) + seq!['–'] + clock_text(
            q.end_min as int,
        ) + seq![' ', '('] + offset_text(q.tz_offset_min as int) + seq![')'],
    }
}

/// The status of a user: the head, then the mutes at `now`, then the quiet hours.
pub open spec fn status_text_of(
    t: T,
    x: StatusTexts,
    notifications_on: bool,
    subs: Seq<Sub>,
    mutes: Seq<MapMute>,
    now: i64,
    quiet: Option<QuietHours>,
) -> Seq<char> {
    status_summary_of(t, notifications_on, subs) + mute_section(mutes, now, t, x) + quiet_section(quiet, x)
}

/// Whether the time left of every mute fits in an `i64` at `now`.
pub open spec fn mutes_fit(mutes: Seq<MapMute>, now: i64) -> bool {
    forall|i: int|
        0 <= i < mutes.len() ==> ((#[trigger] mutes[i]).until matches Some(u) ==> i64::MIN <= u - now
            <= i64::MAX)
}

fn mute_line_chars(m: &MapMute, now: i64, t: &T, x: &StatusTexts) -> (r: Vec<char>)
    requires
        m.until matches Some(u) ==> i64::MIN <= u - now <= i64::MAX,
    ensures
        r@ == mute_line(*m, now, *t, *x),
{
    let dur: Vec<char> = match m.until {
        None => chars_of(x.forever),
        Some(u) => {
            let d = u - now;
            let secs: u64 = if d > 0 {
                d as u64
            } else {
                0
            };
            let mut v = decimal_chars(secs / 3600);
            append_str(&mut v, x.hours);
            v.push(' ');
            append_chars(&mut v, &decimal_chars((secs % 3600) / 60));
            append_str(&mut v, x.minutes);
            v.push(' ');
            append_str(&mut v, x.remaining);
            assert(v@ =~= mute_duration(*m, now, *x));
            v
        },
    };
    let mut out: Vec<char> = vec!['\n', '•', ' '];
    append_str(&mut out, kind_label(m.kind.as_str(), t));
    out.push(' ');
    append_str(&mut out, m.pattern.as_str());
    out.push(' ');
    out.push('—');
    out.push(' ');
    append_chars(&mut out, &dur);
    assert(out@ =~= mute_line(*m, now, *t, *x));
    out
}

/// The full status of a user: the head (notifications, counts, enabled
/// subscriptions by kind), the mutes with the time left at `now`, and the
/// quiet hours.
pub fn status_body(
    t: &T,
    x: &StatusTexts,
    notifications_on: bool,
    subs: &Vec<Sub>,
    mutes: &Vec<MapMute>,
    now: i64,
    quiet: Option<QuietHours>,
) -> (r: String)
    requires
        subs.len() < u64::MAX,
        mutes_fit(mutes@, now),
    ensures
        r@ == status_text_of(*t, *x, notifications_on, subs@, mutes@, now, quiet),
{
    let mut out = status_summary(t, notifications_on, subs);
    let mut sec: Vec<char> = vec!['\n', '\n'];
    append_str(&mut sec, x.muted_hdr);
    sec.push(':');
    if mutes.len() == 0 {
        sec.push('\n');
        append_str(&mut sec, x.muted_empty);
    } else {
        let mut lines: Vec<char> = Vec::new();
        let mut i: usize = 0;
        while i < mutes.len()
            invariant
                i <= mutes.len(),
                mutes_fit(mutes@, now),
                lines@ == mute_lines(mutes@.take(i as int), now, *t, *x),
            decreases mutes.len() - i,
        {
            let ghost next = mutes@.take(i + 1);
            assert(next.drop_last() =~= mutes@.take(i as int));
            assert(next.last() == mutes@[i as int]);
            let line = mute_line_chars(&mutes[i], now, t, x);
            append_chars(&mut lines, &line);
            i = i + 1;
        }
        assert(mutes@.take(mutes.len() as int) =~= mutes@);
        append_chars(&mut sec, &lines);
    }
    assert(sec@ =~= mute_section(mutes@, now, *t, *x));
    append_chars(&mut out, &sec);
    let mut q: Vec<char> = vec!['\n', '\n'];
    append_str(&mut q, x.quiet_hdr);
    q.push(':');
    match quiet {
        None => {
            q.push('\n');
            append_str(&mut q, x.quiet_off);
        },
        Some(qh) => {
            q.push('\n');
            q.push('•');
            q.push(' ');
            append_str(&mut q, format_minutes(qh.start_min).as_str());
            q.push('–');
            append_str(&mut q, format_minutes(qh.end_min).as_str());
            q.push(' ');
            q.push('(');
            append_str(&mut q, format_tz_offset(qh.tz_offset_min).as_str());
            q.push(')');
        },
    }
    assert(q@ =~= quiet_section(quiet, *x));
    append_chars(&mut out, &q);
    string_of(&out)
}

/// The texts of the quiet-hours screen.
pub struct QuietTexts {
    /// Shown when no quiet hours are set.
    pub disabled: &'static str,
    /// The window, with `{start}`, `{end}` and `{tz}` to fill in.
    pub title: &'static str,
    /// The label of the current state.
    pub label: &'static str,
    /// The state while notifications are held back.
    pub on: &'static str,
    /// The state while they come through.
    pub off: &'static str,
}

/// The quiet-hours screen: the window and whether it holds notifications back
/// now (when the notification window is closed), or that there is none.
pub open spec fn quiet_screen_of(q: Option<QuietHours>, window_open: bool, x: QuietTexts) -> Seq<char> {
    match q {
        None => x.disabled@,
        Some(q) => replace_all(
            replace_all(replace_all(x.title@, "{start}"@, clock_text(q.start_min as int)), "{end}"@, clock_text(q.end_min as int)),
            "{tz}"@,
            offset_text(q.tz_offset_min as int),
        ) + seq!['\n', '\n'] + field(x.label@, if window_open {
            x.off@
        } else {
            x.on@
        }),
    }
}

/// The text of the quiet-hours screen for quiet hours `q`, given whether the
/// notification window is open now.
pub fn quiet_screen_text(q: Option<QuietHours>, window_open: bool, x: &QuietTexts) -> (r: String)
    ensures
        r@ == quiet_screen_of(q, window_open, *x),
{
    match q {
        None => string_of(&chars_of(x.disabled)),
        Some(qh) => {
            proof {
                reveal_strlit("{start}");
                reveal_strlit("{end}");
                reveal_strlit("{tz}");
            }
            let a = fill(&chars_of(x.title), "{start}", &chars_of(format_minutes(qh.start_min).as_str()));
            let b = fill(&a, "{end}", &chars_of(format_minutes(qh.end_min).as_str()));
            let mut out = fill(&b, "{tz}", &chars_of(format_tz_offset(qh.tz_offset_min).as_str()));
            let nl2: Vec<char> = vec!['\n', '\n'];
            append_chars(&mut out, &nl2);
            append_chars(&mut out, &field_chars(x.label, if window_open { x.off } else { x.on }));
            string_of(&out)
        },
    }
}

/// The texts of the host-filter screen.
pub struct FilterTexts {
    /// The title, with `{name}` to fill in.
    pub title: &'static str,
    pub mode: &'static str,
    pub mode_off: &'static str,
    pub mode_whitelist: &'static str,
    pub mode_blacklist: &'static str,
    pub desc_whitelist: &'static str,
    pub desc_blacklist: &'static str,
    pub hosts_hdr: &'static str,
    pub hosts_empty: &'static str,
}

/// The label and description of host filter mode `mode` (off for an unknown mode, without description).
pub open spec fn mode_info(mode: Seq<char>, x: FilterTexts) -> (Seq<char>, Seq<char>) {
    if mode == HF_WHITELIST@ {
        (x.mode_whitelist@, x.desc_whitelist@)
    } else if mode == HF_BLACKLIST@ {
        (x.mode_blacklist@, x.desc_blacklist@)
    } else {
        (x.mode_off@, Seq::empty())
    }
}

/// The lines `• host` of `hosts`, in order.
pub open spec fn host_lines(hosts: Seq<String>) -> Seq<char>
    decreases hosts.len(),
{
    if hosts.len() == 0 {
        Seq::empty()
    } else {
        host_lines(hosts.drop_last()) + seq!['\n', '•', ' '] + hosts.last()@
    }
}

/// The host-filter screen of subscription `s`: its title, the mode with its
/// description, and the hosts.
pub open spec fn filter_screen_of(s: Sub, mode: Seq<char>, hosts: Seq<String>, t: T, x: FilterTexts) -> Seq<char> {
    let info = mode_info(mode, x);
    replace_all(x.title@, "{name}"@, sub_button_label(s, t)) + seq!['\n', '\n'] + field(x.mode@, info.0) + (
    if info.1.len() == 0 {
        Seq::empty()
    } else {
        seq!['\n'] + info.1
    }) + seq!['\n', '\n'] + x.hosts_hdr@ + seq![':'] + if hosts.len() == 0 {
        seq!['\n'] + x.hosts_empty@
    } else {
        host_lines(hosts)
    }
}

/// The text of the host-filter screen of subscription `s` in mode `mode` with `hosts`.
pub fn host_filter_text(s: &Sub, mode: &str, hosts: &Vec<String>, t: &T, x: &FilterTexts) -> (r: String)
    ensures
        r@ == filter_screen_of(*s, mode@, hosts@, *t, *x),
{
    proof {
        reveal_strlit("{name}");
    }
    let (label, desc) = if str_eq(mode, HF_WHITELIST) {
        (x.mode_whitelist, x.desc_whitelist)
    } else if str_eq(mode, HF_BLACKLIST) {
        (x.mode_blacklist, x.desc_blacklist)
    } else {
        (x.mode_off, "")
    };
    proof {
        reveal_strlit("");
    }
    let mut name = chars_of(kind_label(s.kind.as_str(), t));
    name.push(' ');
    append_str(&mut name, s.pattern.as_str());
    assert(name@ =~= sub_button_label(*s, *t));
    let mut out = fill(&chars_of(x.title), "{name}", &name);
    let nl2: Vec<char> = vec!['\n', '\n'];
    append_chars(&mut out, &nl2);
    append_chars(&mut out, &field_chars(x.mode, label));
    let mut d: Vec<char> = Vec::new();
    let dv = chars_of(desc);
    if dv.len() > 0 {
        d.push('\n');
        append_chars(&mut d, &dv);
    }
    append_chars(&mut out, &d);
    let mut h: Vec<char> = vec!['\n', '\n'];
    append_str(&mut h, x.hosts_hdr);
    h.push(':');
    if hosts.len() == 0 {
        h.push('\n');
        append_str(&mut h, x.hosts_empty);
    } else {
        let mut lines: Vec<char> = Vec::new();
        let mut i: usize = 0;
        while i < hosts.len()
            invariant
                i <= hosts.len(),
                lines@ == host_lines(hosts@.take(i as int)),
            decreases hosts.len() - i,
        {
            let ghost next = hosts@.take(i + 1);
            assert(next.drop_last() =~= hosts@.take(i as int));
            let ghost before = lines@;
            lines.push('\n');
            lines.push('•');
            lines.push(' ');
            append_str(&mut lines, hosts[i].as_str());
            assert(lines@ =~= before + seq!['\n', '•', ' '] + next.last()@);
            i = i + 1;
        }
        assert(hosts@.take(hosts.len() as int) =~= hosts@);
        append_chars(&mut h, &lines);
    }
    append_chars(&mut out, &h);
    string_of(&out)
}

/// The texts of the subscription list below the status.
pub struct ManageTexts {
    /// The list's title, with `{n}` for the number of subscriptions.
    pub title: &'static str,
    /// Shown when there are none.
    pub empty: &'static str,
    /// The header above the subscriptions.
    pub subs_hdr: &'static str,
    /// The hint after them.
    pub hint: &'static str,
}

/// The line of subscription `s` in the list: enabled or not, its kind and pattern.
pub open spec fn manage_line(s: Sub, t: T) -> Seq<char> {
    seq!['\n', '•', ' '] + (if s.enabled {
        "✅"@
    } else {
        "❌"@
    }) + seq![' '] + sub_button_label(s, t)
}

/// The lines of `subs`, in order.
pub open spec fn manage_lines(subs: Seq<Sub>, t: T) -> Seq<char>
    decreases subs.len(),
{
    if subs.len() == 0 {
        Seq::empty()
    } else {
        manage_lines(subs.drop_last(), t) + manage_line(subs.last(), t)
    }
}

/// The subscription list under the status: its title with the number of
/// subscriptions, then either that there are none, or the header, a line per
/// subscription and the hint.
pub open spec fn manage_list_of(subs: Seq<Sub>, t: T, m: ManageTexts) -> Seq<char> {
    seq!['\n', '\n'] + replace_all(m.title@, "{n}"@, decimal(subs.len())) + if subs.len() == 0 {
        seq!['\n'] + m.empty@
    } else {
        seq!['\n'] + m.subs_hdr@ + seq!['\n'] + manage_lines(subs, t) + m.hint@
    }
}

/// The screen of the subscription list: the full status, then the list.
pub fn manage_text(
    t: &T,
    x: &StatusTexts,
    m: &ManageTexts,
    notifications_on: bool,
    subs: &Vec<Sub>,
    mutes: &Vec<MapMute>,
    now: i64,
    quiet: Option<QuietHours>,
) -> (r: String)
    requires
        subs.len() < u64::MAX,
        mutes_fit(mutes@, now),
    ensures
        r@ == status_text_of(*t, *x, notifications_on, subs@, mutes@, now, quiet) + manage_list_of(
            subs@,
            *t,
            *m,
        ),
{
    proof {
        reveal_strlit("{n}");
        reveal_strlit("✅");
        reveal_strlit("❌");
    }
    let mut out = chars_of(status_body(t, x, notifications_on, subs, mutes, now, quiet).as_str());
    let mut list: Vec<char> = vec!['\n', '\n'];
    append_chars(&mut list, &fill(&chars_of(m.title), "{n}", &decimal_chars(subs.len() as u64)));
    if subs.len() == 0 {
        list.push('\n');
        append_str(&mut list, m.empty);
    } else {
        list.push('\n');
        append_str(&mut list, m.subs_hdr);
        list.push('\n');
        let mut lines: Vec<char> = Vec::new();
        let mut i: usize = 0;
        while i < subs.len()
            invariant
                i <= subs.len(),
                lines@ == manage_lines(subs@.take(i as int), *t),
            decreases subs.len() - i,
        {
            let s = &subs[i];
            let ghost next = subs@.take(i + 1);
            assert(next.drop_last() =~= subs@.take(i as int));
            assert(next.last() == *s);
            let mut line: Vec<char> = vec!['\n', '•', ' '];
            append_str(&mut line, if s.enabled { "✅" } else { "❌" });
            line.push(' ');
            append_str(&mut line, kind_label(s.kind.as_str(), t));
            line.push(' ');
            append_str(&mut line, s.pattern.as_str());
            assert(line@ =~= manage_line(*s, *t));
            append_chars(&mut lines, &line);
            i = i + 1;
        }
        assert(subs@.take(subs.len() as int) =~= subs@);
        append_chars(&mut list, &lines);
        append_str(&mut list, m.hint);
    }
    assert(list@ =~= manage_list_of(subs@, *t, *m));
    append_chars(&mut out, &list);
    string_of(&out)
}

/// Whether `sub`, the subscription looked up by a button's id, is user `uid`'s.
pub open spec fn owned_by(sub: Option<Sub>, uid: i64) -> bool {
    sub matches Some(s) && s.chat_id == uid
}

/// What a routed button press comes to for user `uid`: an operation on a
/// subscription is carried out only when the subscription its id names
/// (`sub`, as looked up) is the user's; otherwise nothing happens. Any other
/// action stands.
pub open spec fn authorized(action: CallbackAction, sub: Option<Sub>, uid: i64) -> CallbackAction {
    match action {
        CallbackAction::Sub { .. } => if owned_by(sub, uid) {
            action
        } else {
            CallbackAction::Ignore
        },
        _ => action,
    }
}

/// Holds an operation on a subscription to the ownership test.
pub fn authorize(action: CallbackAction, sub: &Option<Sub>, uid: i64) -> (r: CallbackAction)
    ensures
        r == authorized(action, *sub, uid),
{
    match action {
        CallbackAction::Sub { .. } => {
            if owns(sub, uid) {
                action
            } else {
                CallbackAction::Ignore
            }
        },
        _ => action,
    }
}

/// A button on another user's subscription, or on one that does not exist,
/// does nothing: the action is ignored, and the pending input stays as it was.
/// On the user's own subscription the action stands.
pub proof fn law_foreign_subscriptions_untouched(
    data: Seq<char>,
    action: CallbackAction,
    sub: Option<Sub>,
    uid: i64,
    current: Option<Pending>,
)
    requires
        callback_action_is(data, action),
        action is Sub,
    ensures
        !owned_by(sub, uid) ==> authorized(action, sub, uid) is Ignore && pending_after(
            authorized(action, sub, uid),
            current,
        ) == current,
        owned_by(sub, uid) ==> authorized(action, sub, uid) == action,
{
}

} // verus!
