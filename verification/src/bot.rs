//! The Discord bot's decisions and replies: uptime rendering, where to
//! greet a new guild, reminder delivery, the setup summary, the yearly
//! recap text, and the small rules of the archive and query commands.
//!
//! The gateway client performs every Discord call; these functions decide
//! what it sends and where.

use core::time::Duration;

use vstd::prelude::*;

use crate::domain::{Cadence, GuildSettings, Privacy, Series, SeriesState, strs_view};
use crate::policy::{PolicyViolation, channel_allowed, channel_allowed_spec};
use crate::reminder::{ReminderCandidate, ReminderInputs, expected_day_spec, reminder_due, reminder_due_spec};
use crate::text::{
    chars_of, int_dec, nat_dec, parse_u64, parse_u64_spec, push_char, push_i64_dec, push_str,
    push_u64_dec, string_of,
};
use crate::wrapped::{Wrapped, month_name, month_name_spec};

verus! {

/// Greeting posted once when leaf joins a guild.
pub const GREETING: &'static str = "🍃 Thanks for planting leaf! Before anyone can start a series, an admin needs to run `/setup` to pick the watched channels and policies.";

/// The user-facing text for an internal command failure: static, so no
/// internal detail can leak into chat.
pub const USER_ERROR_MESSAGE: &'static str = "🍂 Something went wrong on my end. It's been logged — try again in a moment.";

// ---------------------------------------------------------------------
// Command guards
// ---------------------------------------------------------------------

/// Reply to a command used outside a server.
pub const GUILD_ONLY_MESSAGE: &'static str = "🍂 This only works inside a server.";

/// Reply to a series command in a guild that has not finished `/setup`.
pub const SETUP_NEEDED_MESSAGE: &'static str = "🌱 leaf isn't set up here yet — an admin needs to run `/setup` first.";

/// The single gate for every series and archive feature: a guild's
/// settings are usable only once `/setup` has been completed.
pub fn usable_settings(settings: Option<GuildSettings>) -> (r: Option<GuildSettings>)
    ensures
        match settings {
            Some(s) => if s.setup_complete {
                r == Some(s)
            } else {
                r is None
            },
            None => r is None,
        },
{
    match settings {
        Some(s) => if s.setup_complete {
            Some(s)
        } else {
            None
        },
        None => None,
    }
}

/// Custom id of the confirming button of a confirm/cancel prompt.
pub const CONFIRM_YES_ID: &'static str = "confirm-yes";

/// Custom id of the cancelling button of a confirm/cancel prompt.
pub const CONFIRM_NO_ID: &'static str = "confirm-no";

/// The outcome of a confirm/cancel prompt: confirmed only when the invoker
/// pressed the confirming button (a timeout, `None`, cancels), with the
/// text the prompt is edited to.
pub fn confirm_outcome(pressed: Option<&str>) -> (r: (bool, &'static str))
    ensures
        r.0 == (pressed matches Some(id) && id@ == CONFIRM_YES_ID@),
        r.0 ==> r.1@ == "Confirmed."@,
        !r.0 ==> r.1@ == "Cancelled — nothing changed."@,
{
    let confirmed = match pressed {
        Some(id) => crate::text::str_eq(id, CONFIRM_YES_ID),
        None => false,
    };
    if confirmed {
        (true, "Confirmed.")
    } else {
        (false, "Cancelled — nothing changed.")
    }
}

/// The channel a guild's quiet log lines go to: its log channel, when set
/// and a valid snowflake.
pub open spec fn log_target_spec(settings: GuildSettings) -> Option<u64> {
    match settings.log_channel_id {
        Some(c) => parse_u64_spec(c@),
        None => None,
    }
}

/// Where to write a log line for a guild, if anywhere.
pub fn log_target(settings: &GuildSettings) -> (r: Option<u64>)
    ensures
        r == log_target_spec(*settings),
{
    match &settings.log_channel_id {
        Some(c) => parse_u64(c.as_str()),
        None => None,
    }
}

/// Gateway configuration for run mode.
#[derive(Debug, Clone)]
pub struct BotConfig {
    /// Discord bot token.
    pub token: String,
    /// When set, commands register in this guild only (instant updates)
    /// instead of globally (up to an hour of propagation).
    pub dev_guild: Option<u64>,
}

/// The gateway configuration from the bot token and the `DEV_GUILD_ID`
/// setting: a guild snowflake there scopes command registration to it;
/// anything else (or nothing) registers globally.
pub fn bot_config(token: &str, dev_guild_id: Option<&str>) -> (r: BotConfig)
    ensures
        r.token@ == token@,
        r.dev_guild == match dev_guild_id {
            Some(v) => parse_u64_spec(v@),
            None => None,
        },
{
    BotConfig {
        token: token.to_owned(),
        dev_guild: match dev_guild_id {
            Some(v) => parse_u64(v),
            None => None,
        },
    }
}

/// What waiting on a shutdown flag does next.
#[derive(Debug, Clone, Copy, PartialEq, Eq, Structural)]
pub enum FlagStep {
    /// The flag is raised: stop waiting.
    Resolve,
    /// Not yet raised: wait for the next change.
    Wait,
    /// Not raised and its sender is gone, so it can never be raised: wait
    /// forever (a dropped sender is no signal).
    Never,
}

/// One step of waiting on a flag: it resolves only when the flag is
/// `true`, never because its sender went away.
pub fn flag_step(raised: bool, sender_alive: bool) -> (r: FlagStep)
    ensures
        raised ==> r == FlagStep::Resolve,
        !raised && sender_alive ==> r == FlagStep::Wait,
        !raised && !sender_alive ==> r == FlagStep::Never,
{
    if raised {
        FlagStep::Resolve
    } else if sender_alive {
        FlagStep::Wait
    } else {
        FlagStep::Never
    }
}

// ---------------------------------------------------------------------
// Uptime
// ---------------------------------------------------------------------

/// An uptime as its two largest units: `42s`, `2m 5s`, `3h 4m`, `2d 5h`.
pub open spec fn uptime_spec(secs: nat) -> Seq<char> {
    let days = secs / 86400;
    let hours = (secs % 86400) / 3600;
    let mins = (secs % 3600) / 60;
    if days == 0 && hours == 0 && mins == 0 {
        nat_dec(secs) + "s"@
    } else if days == 0 && hours == 0 {
        nat_dec(mins) + "m "@ + nat_dec(secs % 60) + "s"@
    } else if days == 0 {
        nat_dec(hours) + "h "@ + nat_dec(mins) + "m"@
    } else {
        nat_dec(days) + "d "@ + nat_dec(hours) + "h"@
    }
}

/// Renders a number of seconds as the largest two units.
pub fn uptime_text(secs: u64) -> (r: String)
    ensures
        r@ == uptime_spec(secs as nat),
{
    let days = secs / 86400;
    let hours = (secs % 86400) / 3600;
    let mins = (secs % 3600) / 60;
    let mut s = String::new();
    if days == 0 && hours == 0 && mins == 0 {
        push_u64_dec(&mut s, secs);
        push_str(&mut s, "s");
    } else if days == 0 && hours == 0 {
        push_u64_dec(&mut s, mins);
        push_str(&mut s, "m ");
        push_u64_dec(&mut s, secs % 60);
        push_str(&mut s, "s");
    } else if days == 0 {
        push_u64_dec(&mut s, hours);
        push_str(&mut s, "h ");
        push_u64_dec(&mut s, mins);
        push_str(&mut s, "m");
    } else {
        push_u64_dec(&mut s, days);
        push_str(&mut s, "d ");
        push_u64_dec(&mut s, hours);
        push_str(&mut s, "h");
    }
    assert(s@ =~= uptime_spec(secs as nat));
    s
}

/// The whole seconds of a duration, as `Duration::as_secs` gives them.
pub uninterp spec fn duration_secs(d: Duration) -> u64;

/// Whole seconds of a duration (`Duration::as_secs`). Claimed: the result
/// is `duration_secs` of the duration; nothing further about its value.
#[verifier::external_body]
fn whole_secs(d: Duration) -> (r: u64)
    ensures
        r == duration_secs(d),
{
    d.as_secs()
}

/// Renders a duration as the largest two units, e.g. `3d 7h` or `12m 40s`:
/// the rendering of its whole seconds.
pub fn format_uptime(elapsed: Duration) -> (r: String)
    ensures
        r@ == uptime_spec(duration_secs(elapsed) as nat),
{
    let secs = whole_secs(elapsed);
    let r = uptime_text(secs);
    assert(r@ == uptime_spec(secs as nat));
    r
}

// ---------------------------------------------------------------------
// Greeting a new guild
// ---------------------------------------------------------------------

/// One text channel the bot could greet in.
#[derive(Debug, Clone, Copy)]
pub struct ChannelCandidate {
    /// Channel id.
    pub id: u64,
    /// Sort position in the guild sidebar.
    pub position: u16,
    /// Is a plain text channel.
    pub is_text: bool,
    /// Bot holds View Channel + Send Messages here.
    pub can_send: bool,
}

/// A channel the greeting can go to.
pub open spec fn usable(c: ChannelCandidate) -> bool {
    c.is_text && c.can_send
}

/// `a` sorts before `b` in the sidebar (position, then id).
pub open spec fn sorts_before(a: ChannelCandidate, b: ChannelCandidate) -> bool {
    a.position < b.position || (a.position == b.position && a.id < b.id)
}

/// Index of the top-most usable channel among the first `n` (the first of
/// equals), if any.
pub open spec fn topmost_upto(c: Seq<ChannelCandidate>, n: int) -> Option<int>
    decreases n,
{
    if n <= 0 {
        None
    } else {
        let prev = topmost_upto(c, n - 1);
        if usable(c[n - 1]) && (prev is None || sorts_before(c[n - 1], c[prev->0])) {
            Some(n - 1)
        } else {
            prev
        }
    }
}

/// Where the greeting goes: the system channel when usable, else the
/// top-most usable channel, else nowhere.
pub open spec fn greeting_channel_spec(system: Option<u64>, c: Seq<ChannelCandidate>) -> Option<u64> {
    if system is Some && exists|i: int| 0 <= i < c.len() && usable(#[trigger] c[i]) && c[i].id == system->0 {
        system
    } else {
        match topmost_upto(c, c.len() as int) {
            Some(i) => Some(c[i].id),
            None => None,
        }
    }
}

/// Picks where the greeting goes: the system channel when usable, else the
/// top-most (lowest position, then lowest id) sendable text channel, else
/// nowhere (greeting silently skipped).
pub fn pick_greeting_channel(system: Option<u64>, candidates: &[ChannelCandidate]) -> (r: Option<u64>)
    ensures
        r == greeting_channel_spec(system, candidates@),
{
    if let Some(sys) = system {
        let mut i: usize = 0;
        while i < candidates.len()
            invariant
                i <= candidates.len(),
                system == Some(sys),
                forall|k: int| 0 <= k < i ==> !(usable(#[trigger] candidates@[k]) && candidates@[k].id == sys),
            decreases candidates.len() - i,
        {
            let c = candidates[i];
            if c.is_text && c.can_send && c.id == sys {
                assert(usable(candidates@[i as int]) && candidates@[i as int].id == sys);
                return Some(sys);
            }
            i = i + 1;
        }
    }
    let mut best: Option<usize> = None;
    let mut i: usize = 0;
    while i < candidates.len()
        invariant
            i <= candidates.len(),
            best matches Some(b) ==> b < i,
            topmost_upto(candidates@, i as int) == match best {
                Some(b) => Some(b as int),
                None => None,
            },
        decreases candidates.len() - i,
    {
        let c = candidates[i];
        if c.is_text && c.can_send {
            let better = match best {
                None => true,
                Some(b) => {
                    let d = candidates[b];
                    c.position < d.position || (c.position == d.position && c.id < d.id)
                },
            };
            if better {
                best = Some(i);
            }
        }
        i = i + 1;
    }
    match best {
        Some(b) => Some(candidates[b].id),
        None => None,
    }
}

proof fn lemma_topmost(c: Seq<ChannelCandidate>, n: int)
    requires
        0 <= n <= c.len(),
    ensures
        topmost_upto(c, n) matches Some(k) ==> 0 <= k < n && usable(c[k]) && forall|j: int|
            0 <= j < n && usable(#[trigger] c[j]) ==> !sorts_before(c[j], c[k]),
        topmost_upto(c, n) is None ==> forall|j: int| 0 <= j < n ==> !usable(#[trigger] c[j]),
    decreases n,
{
    if n > 0 {
        lemma_topmost(c, n - 1);
    }
}

/// The greeting goes only to a usable channel; the system channel wins when
/// usable; otherwise no usable channel sorts before the chosen one; and it
/// is skipped only when no channel is usable.
pub proof fn lemma_greeting_channel(system: Option<u64>, c: Seq<ChannelCandidate>)
    ensures
        greeting_channel_spec(system, c) matches Some(id) ==> exists|i: int| 0 <= i < c.len() && usable(#[trigger] c[i]) && c[i].id == id,
        (system matches Some(s) && exists|i: int| 0 <= i < c.len() && usable(#[trigger] c[i]) && c[i].id == s) ==> greeting_channel_spec(system, c) == system,
        greeting_channel_spec(system, c) is None <==> forall|i: int| 0 <= i < c.len() ==> !usable(#[trigger] c[i]),
        !(system matches Some(s) && exists|i: int| 0 <= i < c.len() && usable(#[trigger] c[i]) && c[i].id == s) ==> match topmost_upto(c, c.len() as int) {
            Some(k) => greeting_channel_spec(system, c) == Some(c[k].id) && usable(c[k]) && forall|j: int| 0 <= j < c.len() && usable(#[trigger] c[j]) ==> !sorts_before(c[j], c[k]),
            None => greeting_channel_spec(system, c) is None,
        },
{
    lemma_topmost(c, c.len() as int);
    if let Some(k) = topmost_upto(c, c.len() as int) {
        assert(usable(c[k]));
    }
}

// ---------------------------------------------------------------------
// Reminders
// ---------------------------------------------------------------------

/// The DM nudge: names the series and the day, and where to post when the
/// series has a channel.
pub open spec fn dm_text_spec(c: ReminderCandidate, expected: i64) -> Seq<char> {
    let where_to = if c.channels@.len() > 0 {
        " in <#"@ + c.channels@[0]@ + ">"@
    } else {
        Seq::empty()
    };
    "🍃 Gentle nudge: **"@ + c.name@ + "** is waiting on Day "@ + int_dec(expected as int)
        + ". Post it"@ + where_to + " and archive to keep the streak going."@
}

/// The DM nudge for a series that is behind.
pub fn dm_text(c: &ReminderCandidate, expected: i64) -> (r: String)
    ensures
        r@ == dm_text_spec(*c, expected),
{
    let mut s = String::new();
    push_str(&mut s, "🍃 Gentle nudge: **");
    push_str(&mut s, c.name.as_str());
    push_str(&mut s, "** is waiting on Day ");
    push_i64_dec(&mut s, expected);
    push_str(&mut s, ". Post it");
    if c.channels.len() > 0 {
        push_str(&mut s, " in <#");
        push_str(&mut s, c.channels[0].as_str());
        push_str(&mut s, ">");
    }
    push_str(&mut s, " and archive to keep the streak going.");
    assert(s@ =~= dm_text_spec(*c, expected));
    s
}

/// The channel nudge: pings the creator and names the series and day.
pub open spec fn channel_text_spec(c: ReminderCandidate, expected: i64) -> Seq<char> {
    "🍃 <@"@ + c.creator_id@ + "> — **"@ + c.name@ + "** is waiting on Day "@ + int_dec(expected as int)
        + "."@
}

/// The channel nudge for a series that is behind.
pub fn channel_text(c: &ReminderCandidate, expected: i64) -> (r: String)
    ensures
        r@ == channel_text_spec(*c, expected),
{
    let mut s = String::new();
    push_str(&mut s, "🍃 <@");
    push_str(&mut s, c.creator_id.as_str());
    push_str(&mut s, "> — **");
    push_str(&mut s, c.name.as_str());
    push_str(&mut s, "** is waiting on Day ");
    push_i64_dec(&mut s, expected);
    push_str(&mut s, ".");
    assert(s@ =~= channel_text_spec(*c, expected));
    s
}

/// Where a reminder is delivered.
#[derive(Debug, Clone, Copy, PartialEq, Eq, Structural)]
pub enum ReminderTarget {
    /// A DM to this user.
    Dm(u64),
    /// A ping in this channel.
    Channel(u64),
}

/// Why a reminder could not be addressed.
#[derive(Debug, Clone, Copy, PartialEq, Eq, Structural)]
pub enum TargetError {
    /// The creator or channel id is not a snowflake.
    BadId,
    /// A channel reminder for a series with no channel.
    NoChannel,
}

/// The destination of a reminder: the creator by DM, or the series' first
/// channel.
pub open spec fn target_spec(c: ReminderCandidate) -> Result<ReminderTarget, TargetError> {
    if c.reminder_dm {
        match parse_u64_spec(c.creator_id@) {
            Some(u) => Ok(ReminderTarget::Dm(u)),
            None => Err(TargetError::BadId),
        }
    } else if c.channels@.len() == 0 {
        Err(TargetError::NoChannel)
    } else {
        match parse_u64_spec(c.channels@[0]@) {
            Some(ch) => Ok(ReminderTarget::Channel(ch)),
            None => Err(TargetError::BadId),
        }
    }
}

/// Addresses a reminder.
pub fn reminder_target(c: &ReminderCandidate) -> (r: Result<ReminderTarget, TargetError>)
    ensures
        r == target_spec(*c),
{
    if c.reminder_dm {
        match parse_u64(c.creator_id.as_str()) {
            Some(u) => Ok(ReminderTarget::Dm(u)),
            None => Err(TargetError::BadId),
        }
    } else if c.channels.len() == 0 {
        Err(TargetError::NoChannel)
    } else {
        match parse_u64(c.channels[0].as_str()) {
            Some(ch) => Ok(ReminderTarget::Channel(ch)),
            None => Err(TargetError::BadId),
        }
    }
}

/// What one scheduler tick does for one candidate.
#[derive(Debug, Clone, Copy, PartialEq, Eq, Structural)]
pub enum TickStep {
    /// Not due: record the check time, keep the reminded day as it was.
    RecordCheck {
        /// The reminded day to keep.
        day: Option<i64>,
    },
    /// Due: mark `day` as reminded before sending (so a crash cannot
    /// double-send), and roll back to `previous` if the send fails.
    Deliver {
        /// The day the reminder names.
        day: i64,
        /// The reminded day to restore on a failed send.
        previous: Option<i64>,
    },
}

/// `i` are the predicate inputs of candidate `c` at `now`.
pub open spec fn inputs_of(i: ReminderInputs, c: ReminderCandidate, now: i64) -> bool {
    &&& i.cadence == c.cadence
    &&& i.reminder_time@ == c.reminder_time@
    &&& i.timezone@ == c.timezone@
    &&& i.last_post_at == c.last_post_at
    &&& i.expected_day == expected_day_spec(c)
    &&& i.last_reminder_day == c.last_reminder_day
    &&& i.now_unix == now
}

/// The tick's decision for a candidate whose reminder rule answers `due`.
pub open spec fn tick_step_spec(c: ReminderCandidate, due: bool) -> TickStep {
    if due {
        TickStep::Deliver { day: expected_day_spec(c), previous: c.last_reminder_day }
    } else {
        TickStep::RecordCheck { day: c.last_reminder_day }
    }
}

/// Decides one candidate's tick: deliver when the reminder rule says it is
/// due, else only record the check.
pub fn tick_step(c: &ReminderCandidate, now: i64) -> (r: TickStep)
    requires
        c.max_day matches Some(d) ==> d < i64::MAX,
    ensures
        forall|i: ReminderInputs| #[trigger] inputs_of(i, *c, now) ==> r == tick_step_spec(*c, reminder_due_spec(i)),
{
    let inputs = c.inputs(now);
    let due = reminder_due(&inputs);
    assert forall|i: ReminderInputs| #[trigger] inputs_of(i, *c, now) implies reminder_due_spec(i) == due by {
        assert(i.timezone@ == inputs.timezone@);
        assert(i.reminder_time@ == inputs.reminder_time@);
    }
    if due {
        TickStep::Deliver { day: c.expected_day(), previous: c.last_reminder_day }
    } else {
        TickStep::RecordCheck { day: c.last_reminder_day }
    }
}

/// At most one reminder per missing day: once a delivery has marked the
/// day it names, the next tick for that same missing day only records the
/// check.
pub proof fn lemma_delivery_marks_day(c: ReminderCandidate, i: ReminderInputs, later: i64)
    requires
        c.last_reminder_day == Some(expected_day_spec(c)),
        inputs_of(i, c, later),
    ensures
        tick_step_spec(c, reminder_due_spec(i)) == (TickStep::RecordCheck { day: Some(expected_day_spec(c)) }),
{
}

// ---------------------------------------------------------------------
// Small shared rules
// ---------------------------------------------------------------------

/// `""` for one, `"s"` otherwise.
pub open spec fn plural_spec(n: i64) -> Seq<char> {
    if n == 1 {
        ""@
    } else {
        "s"@
    }
}

/// The plural suffix for a count.
pub fn plural(n: i64) -> (r: &'static str)
    ensures
        r@ == plural_spec(n),
{
    if n == 1 {
        ""
    } else {
        "s"
    }
}

/// Whether the invoker may manage a series: its creator, or an admin.
pub fn may_manage(creator_id: &str, author_id: &str, is_admin: bool) -> (r: bool)
    ensures
        r == (creator_id@ == author_id@ || is_admin),
{
    crate::text::str_eq(creator_id, author_id) || is_admin
}

/// Whether a query about a series should be answered ephemerally: it is
/// not public, or not active.
pub fn sensitive(s: &Series) -> (r: bool)
    ensures
        r == (s.privacy != Privacy::Public || s.state != SeriesState::Active),
{
    s.privacy != Privacy::Public || s.state != SeriesState::Active
}

// ---------------------------------------------------------------------
// Archiving a message
// ---------------------------------------------------------------------

/// Index of the first series among the first `n` named exactly `t`.
pub open spec fn first_exact(mine: Seq<Series>, t: Seq<char>, n: int) -> Option<int>
    decreases n,
{
    if n <= 0 {
        None
    } else {
        match first_exact(mine, t, n - 1) {
            Some(i) => Some(i),
            None => if mine[n - 1].name@ == t {
                Some(n - 1)
            } else {
                None
            },
        }
    }
}

/// Series among the first `n` whose lowercased name is `lt` (when
/// `prefix` is false) or starts with `lt` (when true): how many, and the
/// first.
pub open spec fn ci_matches(mine: Seq<Series>, lt: Seq<char>, prefix: bool, n: int) -> (int, Option<int>)
    decreases n,
{
    if n <= 0 {
        (0, None)
    } else {
        let (c, f) = ci_matches(mine, lt, prefix, n - 1);
        let name = crate::text::lower_seq(mine[n - 1].name@);
        let hit = if prefix {
            crate::text::has_prefix(name, lt)
        } else {
            name == lt
        };
        if hit {
            (c + 1, if f is None {
                Some(n - 1)
            } else {
                f
            })
        } else {
            (c, f)
        }
    }
}

/// The names of the first `n` series, joined by `, `.
pub open spec fn joined_names(mine: Seq<Series>, n: int) -> Seq<char>
    decreases n,
{
    if n <= 0 {
        Seq::empty()
    } else if n == 1 {
        mine[0].name@
    } else {
        joined_names(mine, n - 1) + ", "@ + mine[n - 1].name@
    }
}

/// How a typed series name resolves against the creator's series (as an
/// index): exact match, else the unique case-insensitive match, else the
/// unique case-insensitive prefix; otherwise the message explaining why not.
pub open spec fn resolve_spec(mine: Seq<Series>, input: Seq<char>) -> Result<int, Seq<char>> {
    let t = crate::text::trim(input);
    let lt = crate::text::lower_seq(t);
    match first_exact(mine, t, mine.len() as int) {
        Some(i) => Ok(i),
        None => {
            let (cc, cf) = ci_matches(mine, lt, false, mine.len() as int);
            let (pc, pf) = ci_matches(mine, lt, true, mine.len() as int);
            if cc == 1 {
                Ok(cf->0)
            } else if pc == 1 {
                Ok(pf->0)
            } else if pc == 0 {
                Err("🍂 You don't have a series named **"@ + t + "**. Yours: "@ + joined_names(mine, mine.len() as int))
            } else {
                Err("🍂 **"@ + t + "** matches several of your series — type the full name."@)
            }
        },
    }
}

proof fn lemma_ci_matches(mine: Seq<Series>, lt: Seq<char>, prefix: bool, n: int)
    requires
        0 <= n <= mine.len(),
    ensures
        ({
            let (c, f) = ci_matches(mine, lt, prefix, n);
            &&& 0 <= c <= n
            &&& (c == 0 <==> f is None)
            &&& f matches Some(i) ==> 0 <= i < n
        }),
    decreases n,
{
    if n > 0 {
        lemma_ci_matches(mine, lt, prefix, n - 1);
    }
}

proof fn lemma_first_exact(mine: Seq<Series>, t: Seq<char>, n: int)
    requires
        0 <= n <= mine.len(),
    ensures
        first_exact(mine, t, n) matches Some(i) ==> 0 <= i < n,
    decreases n,
{
    if n > 0 {
        lemma_first_exact(mine, t, n - 1);
    }
}

/// Resolves the typed series name against the creator's list: exact match,
/// else unique case-insensitive match, else unique prefix.
pub fn resolve_series<'a>(mine: &'a [Series], input: &str) -> (r: Result<&'a Series, String>)
    ensures
        match resolve_spec(mine@, input@) {
            Ok(i) => r matches Ok(s) && 0 <= i < mine.len() && *s == mine@[i],
            Err(m) => r matches Err(e) && e@ == m,
        },
{
    let t = crate::text::trim_str(input);
    let lt = crate::text::lower_chars(t.as_slice());
    let ghost tv = t@;
    let ghost ltv = lt@;
    let mut exact: Option<usize> = None;
    let mut cc: usize = 0;
    let mut cf: Option<usize> = None;
    let mut pc: usize = 0;
    let mut pf: Option<usize> = None;
    let mut i: usize = 0;
    while i < mine.len()
        invariant
            i <= mine.len(),
            tv == crate::text::trim(input@),
            ltv == crate::text::lower_seq(tv),
            t@ == tv,
            lt@ == ltv,
            first_exact(mine@, tv, i as int) == match exact {
                Some(k) => Some(k as int),
                None => None,
            },
            ci_matches(mine@, ltv, false, i as int) == (cc as int, match cf {
                Some(k) => Some(k as int),
                None => None,
            }),
            ci_matches(mine@, ltv, true, i as int) == (pc as int, match pf {
                Some(k) => Some(k as int),
                None => None,
            }),
        decreases mine.len() - i,
    {
        proof {
            lemma_ci_matches(mine@, ltv, false, i as int);
            lemma_ci_matches(mine@, ltv, true, i as int);
        }
        let name = chars_of(mine[i].name.as_str());
        if exact.is_none() && crate::text::chars_eq(name.as_slice(), t.as_slice()) {
            exact = Some(i);
        }
        let lname = crate::text::lower_chars(name.as_slice());
        if crate::text::chars_eq(lname.as_slice(), lt.as_slice()) {
            cc = cc + 1;
            if cf.is_none() {
                cf = Some(i);
            }
        }
        if crate::text::chars_start_with(lname.as_slice(), lt.as_slice()) {
            pc = pc + 1;
            if pf.is_none() {
                pf = Some(i);
            }
        }
        i = i + 1;
    }
    proof {
        lemma_first_exact(mine@, tv, mine.len() as int);
        lemma_ci_matches(mine@, ltv, false, mine.len() as int);
        lemma_ci_matches(mine@, ltv, true, mine.len() as int);
    }
    if let Some(k) = exact {
        return Ok(&mine[k]);
    }
    if cc == 1 {
        if let Some(k) = cf {
            return Ok(&mine[k]);
        }
    }
    if pc == 1 {
        if let Some(k) = pf {
            return Ok(&mine[k]);
        }
    }
    let ts = string_of(t.as_slice());
    let mut msg = String::new();
    if pc == 0 {
        push_str(&mut msg, "🍂 You don't have a series named **");
        push_str(&mut msg, ts.as_str());
        push_str(&mut msg, "**. Yours: ");
        let mut j: usize = 0;
        let ghost head = msg@;
        while j < mine.len()
            invariant
                j <= mine.len(),
                msg@ == head + joined_names(mine@, j as int),
            decreases mine.len() - j,
        {
            if j > 0 {
                push_str(&mut msg, ", ");
            }
            push_str(&mut msg, mine[j].name.as_str());
            j = j + 1;
            assert(msg@ =~= head + joined_names(mine@, j as int));
        }
    } else {
        push_str(&mut msg, "🍂 **");
        push_str(&mut msg, ts.as_str());
        push_str(&mut msg, "** matches several of your series — type the full name.");
    }
    Err(msg)
}

/// Whether an attachment's reported content type is archivable.
pub fn archivable(content_type: &Option<String>) -> (r: bool)
    ensures
        r == (content_type matches Some(c) && crate::media::is_allowed_type(crate::media::base_type(c@))),
{
    match content_type {
        Some(c) => crate::media::check_content_type(c.as_str()).is_ok(),
        None => false,
    }
}

/// The day pre-filled in the archive modal: the parser's suggestion from
/// the message text, else the day after the newest series' highest
/// archived day, else that series' start day, else 1.
pub open spec fn default_day_spec(suggested: Option<i64>, newest_max: Option<i64>, newest_start: Option<i64>) -> i64 {
    match suggested {
        Some(d) => d,
        None => match newest_max {
            Some(m) => (m + 1) as i64,
            None => match newest_start {
                Some(s) => s,
                None => 1,
            },
        },
    }
}

/// The day pre-filled in the archive modal.
pub fn default_day(suggested: Option<i64>, newest_max: Option<i64>, newest_start: Option<i64>) -> (r: i64)
    requires
        newest_max matches Some(m) ==> m < i64::MAX,
    ensures
        r == default_day_spec(suggested, newest_max, newest_start),
{
    match suggested {
        Some(d) => d,
        None => match newest_max {
            Some(m) => m + 1,
            None => match newest_start {
                Some(s) => s,
                None => 1,
            },
        },
    }
}

/// Reads the day typed in the archive modal: a trimmed integer of at least
/// 1, else the message explaining what is wrong.
pub open spec fn day_input_spec(raw: Seq<char>) -> Result<i64, Seq<char>> {
    match crate::text::parse_i64_spec(crate::text::trim(raw)) {
        None => Err("🍂 `"@ + raw + "` isn't a day number."@),
        Some(d) => if d < 1 {
            Err("🍂 Day numbers start at 1."@)
        } else {
            Ok(d)
        },
    }
}

/// Reads the day typed in the archive modal.
pub fn parse_day_input(raw: &str) -> (r: Result<i64, String>)
    ensures
        match day_input_spec(raw@) {
            Ok(d) => r == Ok::<i64, String>(d),
            Err(m) => r matches Err(e) && e@ == m,
        },
{
    let t = string_of(crate::text::trim_str(raw).as_slice());
    match crate::text::parse_i64(t.as_str()) {
        None => {
            let mut m = String::new();
            push_str(&mut m, "🍂 `");
            push_str(&mut m, raw);
            push_str(&mut m, "` isn't a day number.");
            assert(m@ =~= "🍂 `"@ + raw@ + "` isn't a day number."@);
            Err(m)
        },
        Some(d) => if d < 1 {
            Err("🍂 Day numbers start at 1.".to_owned())
        } else {
            Ok(d)
        },
    }
}

/// Whether archiving brings a sprout to its promotion threshold.
pub fn should_promote(state: SeriesState, archived: i64, threshold: i64) -> (r: bool)
    ensures
        r == (state == SeriesState::Sprout && archived >= threshold),
{
    state == SeriesState::Sprout && archived >= threshold
}

/// The reaction put on an archived message: the series emoji's first
/// character when it is not ASCII, else 🍃.
pub open spec fn reaction_spec(emoji: Seq<char>) -> char {
    if emoji.len() > 0 && (emoji[0] as u32) >= 128 {
        emoji[0]
    } else {
        '🍃'
    }
}

/// The reaction put on an archived message.
pub fn reaction_for(emoji: &str) -> (r: char)
    ensures
        r == reaction_spec(emoji@),
{
    let v = chars_of(emoji);
    if v.len() > 0 && (v[0] as u32) >= 128 {
        v[0]
    } else {
        '🍃'
    }
}

/// The archiver's confirmation: day, series, file count, and the sprout
/// promotion when it happened.
pub open spec fn archive_reply_spec(day: i64, name: Seq<char>, files: nat, promoted: bool) -> Seq<char> {
    "🍃 Day "@ + int_dec(day as int) + " of **"@ + name + "** archived ("@ + nat_dec(files) + " file"@
        + (if files == 1 { ""@ } else { "s"@ }) + ")."@ + (if promoted {
        "\n🌿 **"@ + name + "** sprouted — it's now publicly listed!"@
    } else {
        ""@
    })
}

/// The archiver's confirmation message.
pub fn archive_reply(day: i64, name: &str, files: usize, promoted: bool) -> (r: String)
    ensures
        r@ == archive_reply_spec(day, name@, files as nat, promoted),
{
    let mut s = String::new();
    push_str(&mut s, "🍃 Day ");
    push_i64_dec(&mut s, day);
    push_str(&mut s, " of **");
    push_str(&mut s, name);
    push_str(&mut s, "** archived (");
    push_u64_dec(&mut s, files as u64);
    push_str(&mut s, " file");
    push_str(&mut s, if files == 1 { "" } else { "s" });
    push_str(&mut s, ").");
    if promoted {
        push_str(&mut s, "\n🌿 **");
        push_str(&mut s, name);
        push_str(&mut s, "** sprouted — it's now publicly listed!");
    }
    proof {
        reveal_strlit("");
    }
    assert(s@ =~= archive_reply_spec(day, name@, files as nat, promoted));
    s
}

/// The log-channel line for an archived day.
pub open spec fn archive_log_spec(day: i64, name: Seq<char>, files: nat) -> Seq<char> {
    "🍃 Day "@ + int_dec(day as int) + " of **"@ + name + "** archived ("@ + nat_dec(files) + " files)"@
}

/// The log-channel line for an archived day.
pub fn archive_log_line(day: i64, name: &str, files: usize) -> (r: String)
    ensures
        r@ == archive_log_spec(day, name@, files as nat),
{
    let mut s = String::new();
    push_str(&mut s, "🍃 Day ");
    push_i64_dec(&mut s, day);
    push_str(&mut s, " of **");
    push_str(&mut s, name);
    push_str(&mut s, "** archived (");
    push_u64_dec(&mut s, files as u64);
    push_str(&mut s, " files)");
    assert(s@ =~= archive_log_spec(day, name@, files as nat));
    s
}

/// Reply to the archive menu from someone with no series.
pub const NO_SERIES_MESSAGE: &'static str = "🌱 You don't have a series yet — `/series create` plants one.";

/// Reply to the archive menu on a message with nothing archivable.
pub const NOTHING_ARCHIVABLE_MESSAGE: &'static str = "🍂 That message has no image or video attachments I can archive.";

/// The series someone can archive into: theirs that are not revoked, in
/// order.
pub open spec fn live_upto(mine: Seq<Series>, n: int) -> Seq<Series>
    decreases n,
{
    if n <= 0 {
        Seq::empty()
    } else {
        let prev = live_upto(mine, n - 1);
        if mine[n - 1].state != SeriesState::Revoked {
            prev.push(mine[n - 1])
        } else {
            prev
        }
    }
}

/// Drops revoked series, keeping the order.
pub fn live_series(mine: Vec<Series>) -> (r: Vec<Series>)
    ensures
        r@ == live_upto(mine@, mine@.len() as int),
{
    let ghost whole = mine@;
    let mut rest = mine;
    let mut kept_rev: Vec<Series> = Vec::new();
    let mut n: usize = rest.len();
    while n > 0
        invariant
            n == rest.len(),
            rest@ == whole.take(n as int),
            n <= whole.len(),
            live_upto(whole, whole.len() as int) == live_upto(whole, n as int) + kept_rev@.reverse(),
        decreases n,
    {
        let s = rest.pop().unwrap();
        proof {
            assert(s == whole[n - 1]);
            assert(rest@ =~= whole.take(n - 1));
        }
        if s.state != SeriesState::Revoked {
            kept_rev.push(s);
            proof {
                assert(kept_rev@.reverse() =~= seq![whole[n - 1]] + kept_rev@.drop_last().reverse());
            }
        }
        n = n - 1;
    }
    let mut out: Vec<Series> = Vec::new();
    let ghost kept = kept_rev@;
    while kept_rev.len() > 0
        invariant
            out@ + kept_rev@.reverse() == kept.reverse(),
        decreases kept_rev.len(),
    {
        let s = kept_rev.pop().unwrap();
        proof {
            assert(out@.push(s) + kept_rev@.reverse() =~= out@ + (kept_rev@.push(s)).reverse());
        }
        out.push(s);
    }
    proof {
        assert(kept_rev@.reverse() =~= Seq::<Series>::empty());
        assert(out@ =~= kept.reverse());
        assert(live_upto(whole, 0) =~= Seq::<Series>::empty());
    }
    out
}

/// Reply when one attachment could not be stored (the day is not archived).
pub open spec fn store_failed_spec(filename: Seq<char>, e: crate::media::MediaError) -> Seq<char> {
    "🍂 Couldn't store `"@ + filename + "`: "@ + crate::media::media_error_text(e)
}

/// Reply when one attachment could not be stored (the day is not archived).
pub fn store_failed_reply(filename: &str, e: &crate::media::MediaError) -> (r: String)
    ensures
        r@ == store_failed_spec(filename@, *e),
{
    let mut out = String::new();
    push_str(&mut out, "🍂 Couldn't store `");
    push_str(&mut out, filename);
    push_str(&mut out, "`: ");
    let m = e.message();
    push_str(&mut out, m.as_str());
    out
}

/// Reply when the day was archived by someone else between the check and
/// the insert.
pub open spec fn race_lost_spec(day: i64) -> Seq<char> {
    "⚠️ Day "@ + int_dec(day as int) + " was archived by someone else just now."@
}

/// Reply when the day was archived by someone else between the check and
/// the insert.
pub fn race_lost_reply(day: i64) -> (r: String)
    ensures
        r@ == race_lost_spec(day),
{
    let mut out = String::new();
    push_str(&mut out, "⚠️ Day ");
    push_i64_dec(&mut out, day);
    push_str(&mut out, " was archived by someone else just now.");
    out
}

/// The refusal when the day is already archived.
pub fn duplicate_day_reply(name: &str, day: i64) -> (r: String)
    ensures
        r@ == "⚠️ **"@ + name@ + "** already has Day "@ + int_dec(day as int) + ". `/delete` it first if this should replace it."@,
{
    let mut s = String::new();
    push_str(&mut s, "⚠️ **");
    push_str(&mut s, name);
    push_str(&mut s, "** already has Day ");
    push_i64_dec(&mut s, day);
    push_str(&mut s, ". `/delete` it first if this should replace it.");
    assert(s@ =~= "⚠️ **"@ + name@ + "** already has Day "@ + int_dec(day as int) + ". `/delete` it first if this should replace it."@);
    s
}

// ---------------------------------------------------------------------
// Auditing a range of days
// ---------------------------------------------------------------------

/// Most days one audit covers.
pub const AUDIT_CAP: i64 = 200;

/// The days an audit covers: from the given start (else the series start)
/// to the given end (else the highest archived day, kept within 20 days of
/// the start and never before it), capped at 200 days; `None` when the end
/// comes before the start.
pub open spec fn audit_window_spec(start: Option<i64>, end: Option<i64>, start_day: i64, max_day: Option<i64>) -> Option<(i64, i64)> {
    let from = match start {
        Some(s) => s,
        None => start_day,
    };
    let to = match end {
        Some(e) => e as int,
        None => {
            let m = match max_day {
                Some(d) => d as int,
                None => from as int,
            };
            let capped = if m < from + 19 { m } else { from + 19 };
            if capped > from { capped } else { from as int }
        },
    };
    if to < from {
        None
    } else {
        Some((from, (if to < from + 199 { to } else { from + 199 }) as i64))
    }
}

/// The days an audit covers.
pub fn audit_window(start: Option<i64>, end: Option<i64>, start_day: i64, max_day: Option<i64>) -> (r: Option<(i64, i64)>)
    requires
        (match start {
            Some(s) => s,
            None => start_day,
        }) <= i64::MAX - 199,
    ensures
        r == audit_window_spec(start, end, start_day, max_day),
{
    let from = match start {
        Some(s) => s,
        None => start_day,
    };
    let to = match end {
        Some(e) => e,
        None => {
            let m = match max_day {
                Some(d) => d,
                None => from,
            };
            let capped = if m < from + 19 { m } else { from + 19 };
            if capped > from { capped } else { from }
        },
    };
    if to < from {
        None
    } else {
        Some((from, if to < from + 199 { to } else { from + 199 }))
    }
}

/// The audit line of one day.
pub open spec fn audit_line_spec(d: i64, archived: bool) -> Seq<char> {
    "Day "@ + int_dec(d as int) + (if archived { " ✅"@ } else { " ❌"@ })
}

/// The audit lines of days `from..from + n`, in order.
pub open spec fn audit_lines_spec(from: i64, n: int, have: Seq<i64>) -> Seq<Seq<char>>
    decreases n,
{
    if n <= 0 {
        Seq::empty()
    } else {
        audit_lines_spec(from, n - 1, have).push(audit_line_spec((from + n - 1) as i64, have.contains((from + n - 1) as i64)))
    }
}

/// One line per day of the window: the day and whether it is archived.
pub fn audit_lines(from: i64, to: i64, have: &Vec<i64>) -> (r: Vec<String>)
    requires
        from <= to,
        to - from < AUDIT_CAP,
    ensures
        r@.map_values(|l: String| l@) == audit_lines_spec(from, to - from + 1, have@),
{
    let mut out: Vec<String> = Vec::new();
    let n = to - from + 1;
    let mut k: i64 = 0;
    while k < n
        invariant
            0 <= k <= n,
            n == to - from + 1,
            from <= to,
            to - from < AUDIT_CAP,
            out@.map_values(|l: String| l@) == audit_lines_spec(from, k as int, have@),
        decreases n - k,
    {
        let d = from + k;
        let mut line = String::new();
        push_str(&mut line, "Day ");
        push_i64_dec(&mut line, d);
        let found = crate::transfer::contains_day(have, d);
        push_str(&mut line, if found { " ✅" } else { " ❌" });
        out.push(line);
        assert(out@.map_values(|l: String| l@) =~= audit_lines_spec(from, k + 1, have@));
        k = k + 1;
    }
    out
}

/// Lines per `/status` message.
pub const AUDIT_CHUNK: usize = 20;

/// Reply when `/status`'s start day comes after its end day.
pub const BAD_RANGE_MESSAGE: &'static str = "🍂 The start day has to come before the end day.";

/// The `/status` header above each chunk of lines.
pub open spec fn audit_header_spec(name: Seq<char>, archived: int, total: int, from: i64, to: i64) -> Seq<char> {
    "**"@ + name + "** — "@ + int_dec(archived) + "/"@ + int_dec(total) + " archived in "@ + int_dec(
        from as int,
    ) + "–"@ + int_dec(to as int) + "\n"@
}

/// The `/status` messages: the audit lines in chunks of 20, each under the
/// header.
pub open spec fn audit_messages_spec(name: Seq<char>, archived: int, from: i64, to: i64, lines: Seq<Seq<char>>) -> Seq<Seq<char>> {
    let chunks = (lines.len() + 19) / 20;
    Seq::new(
        chunks as nat,
        |k: int|
            audit_header_spec(name, archived, lines.len() as int, from, to) + join_lines(
                lines.subrange(20 * k, if 20 * k + 20 < lines.len() {
                    20 * k + 20
                } else {
                    lines.len() as int
                }),
            ),
    )
}

/// The `/status` messages for a window `from..=to` with `archived` days
/// present, given the audit lines.
pub fn audit_messages(name: &str, archived: usize, from: i64, to: i64, lines: &Vec<String>) -> (r: Vec<String>)
    ensures
        r@.map_values(|m: String| m@) == audit_messages_spec(name@, archived as int, from, to, lines@.map_values(|l: String| l@)),
{
    let ghost ls = lines@.map_values(|l: String| l@);
    let mut header = String::new();
    push_str(&mut header, "**");
    push_str(&mut header, name);
    push_str(&mut header, "** — ");
    push_u64_dec(&mut header, archived as u64);
    push_str(&mut header, "/");
    push_u64_dec(&mut header, lines.len() as u64);
    push_str(&mut header, " archived in ");
    push_i64_dec(&mut header, from);
    push_str(&mut header, "–");
    push_i64_dec(&mut header, to);
    push_str(&mut header, "\n");
    assert(header@ =~= audit_header_spec(name@, archived as int, lines.len() as int, from, to));
    let ghost spec = audit_messages_spec(name@, archived as int, from, to, ls);
    let mut out: Vec<String> = Vec::new();
    let mut start: usize = 0;
    let ghost mut k: int = 0;
    while start < lines.len()
        invariant
            0 <= k,
            out@.len() == k,
            start == (if 20 * k < lines.len() { 20 * k } else { lines.len() as int }),
            k > 0 ==> 20 * (k - 1) < lines.len(),
            ls == lines@.map_values(|l: String| l@),
            header@ == audit_header_spec(name@, archived as int, lines.len() as int, from, to),
            spec == audit_messages_spec(name@, archived as int, from, to, ls),
            forall|j: int| 0 <= j < out@.len() ==> #[trigger] out@[j]@ == spec[j],
        decreases lines.len() - start,
    {
        let end = if lines.len() - start > 20 {
            start + 20
        } else {
            lines.len()
        };
        let mut msg = header.clone();
        let mut i = start;
        while i < end
            invariant
                start <= i <= end <= lines.len(),
                ls == lines@.map_values(|l: String| l@),
                msg@ == header@ + join_lines(ls.subrange(start as int, i as int)),
            decreases end - i,
        {
            if i > start {
                push_str(&mut msg, "\n");
            }
            push_str(&mut msg, lines[i].as_str());
            proof {
                let prev = ls.subrange(start as int, i as int);
                let now = ls.subrange(start as int, i + 1);
                assert(now.drop_last() =~= prev);
                assert(now.last() == lines@[i as int]@);
                assert(msg@ =~= header@ + join_lines(now));
            }
            i = i + 1;
        }
        proof {
            assert(20 * k == start);
            assert(k < spec.len()) by (nonlinear_arith)
                requires
                    20 * k < lines.len(),
                    spec.len() == (lines.len() + 19) / 20,
                    0 <= k,
            ;
            assert(msg@ == spec[k]);
        }
        out.push(msg);
        start = end;
        proof {
            k = k + 1;
        }
    }
    proof {
        assert(out@.len() == spec.len()) by (nonlinear_arith)
            requires
                out@.len() == k,
                k > 0 ==> 20 * (k - 1) < lines.len(),
                lines.len() <= 20 * k,
                spec.len() == (lines.len() + 19) / 20,
                0 <= k,
        ;
        assert(out@.map_values(|m: String| m@) =~= spec);
    }
    out
}

/// Reply when a series has no entry for a day.
pub open spec fn no_day_spec(name: Seq<char>, day: i64) -> Seq<char> {
    "**"@ + name + "** has no Day "@ + int_dec(day as int) + "."@
}

/// Reply when a series has no entry for a day.
pub fn no_day_reply(name: &str, day: i64) -> (r: String)
    ensures
        r@ == no_day_spec(name@, day),
{
    let mut out = String::new();
    push_str(&mut out, "**");
    push_str(&mut out, name);
    push_str(&mut out, "** has no Day ");
    push_i64_dec(&mut out, day);
    push_str(&mut out, ".");
    out
}

/// Reply to `/random` for a series with nothing archived.
pub open spec fn nothing_archived_spec(name: Seq<char>) -> Seq<char> {
    "**"@ + name + "** has nothing archived yet."@
}

/// Reply to `/random` for a series with nothing archived.
pub fn nothing_archived_reply(name: &str) -> (r: String)
    ensures
        r@ == nothing_archived_spec(name@),
{
    let mut out = String::new();
    push_str(&mut out, "**");
    push_str(&mut out, name);
    push_str(&mut out, "** has nothing archived yet.");
    out
}

/// The title and text of the embed showing one archived day.
#[derive(Debug, Clone)]
pub struct DayEmbed {
    /// `<emoji> Day <n> — <name>`.
    pub title: String,
    /// Caption (if any), the jump link, and the file count when several.
    pub description: String,
}

/// The embed title of an archived day.
pub open spec fn day_title_spec(emoji: Seq<char>, day: i64, name: Seq<char>) -> Seq<char> {
    emoji + " Day "@ + int_dec(day as int) + " — "@ + name
}

/// The embed text of an archived day.
pub open spec fn day_description_spec(caption: Seq<char>, jump: Seq<char>, files: nat) -> Seq<char> {
    (if caption.len() == 0 {
        Seq::empty()
    } else {
        caption + "\n\n"@
    }) + "[Jump to the original post]("@ + jump + ")"@ + (if files > 1 {
        " · "@ + nat_dec(files) + " files"@
    } else {
        Seq::empty()
    })
}

/// The embed of one archived day of `series`, from its post and how many
/// media files it has.
pub fn day_embed(series: &Series, post: &crate::domain::Post, files: usize) -> (r: DayEmbed)
    ensures
        r.title@ == day_title_spec(series.emoji@, post.day, series.name@),
        r.description@ == day_description_spec(
            post.caption@,
            crate::dto::jump_url(series.guild_id@, post.channel_id@, post.message_id@),
            files as nat,
        ),
{
    let mut title = String::new();
    push_str(&mut title, series.emoji.as_str());
    push_str(&mut title, " Day ");
    push_i64_dec(&mut title, post.day);
    push_str(&mut title, " — ");
    push_str(&mut title, series.name.as_str());
    let mut d = String::new();
    if !post.caption.as_str().is_empty() {
        push_str(&mut d, post.caption.as_str());
        push_str(&mut d, "\n\n");
    }
    push_str(&mut d, "[Jump to the original post](");
    push_str(&mut d, "https://discord.com/channels/");
    push_str(&mut d, series.guild_id.as_str());
    push_str(&mut d, "/");
    push_str(&mut d, post.channel_id.as_str());
    push_str(&mut d, "/");
    push_str(&mut d, post.message_id.as_str());
    push_str(&mut d, ")");
    if files > 1 {
        push_str(&mut d, " · ");
        push_u64_dec(&mut d, files as u64);
        push_str(&mut d, " files");
    }
    assert(d@ =~= day_description_spec(
        post.caption@,
        crate::dto::jump_url(series.guild_id@, post.channel_id@, post.message_id@),
        files as nat,
    ));
    DayEmbed { title, description: d }
}

/// The series a read command may show, and whether to answer ephemerally:
/// only a found series the viewer may see; otherwise nothing (an unknown
/// name and a forbidden one answer alike).
pub fn viewable(found: Option<Series>, viewer: &crate::policy::Viewer<'_>) -> (r: Option<(Series, bool)>)
    ensures
        match found {
            Some(s) => if crate::policy::can_view_spec(s, *viewer) {
                r == Some((s, s.privacy != Privacy::Public || s.state != SeriesState::Active))
            } else {
                r is None
            },
            None => r is None,
        },
{
    match found {
        Some(s) => if crate::policy::can_view(&s, viewer) {
            let e = sensitive(&s);
            Some((s, e))
        } else {
            None
        },
        None => None,
    }
}

/// Reply when the 🗑️ menu is used on a message no archive holds.
pub const NOT_ARCHIVED_MESSAGE: &'static str = "🍂 That message isn't in any archive.";

/// Reply when someone other than the creator or an admin removes an entry.
pub const NOT_OWNER_REMOVE_MESSAGE: &'static str = "🍂 Only the series creator (or an admin) can remove entries.";

/// The confirmation asked before removing a day.
pub open spec fn delete_prompt_spec(day: i64, name: Seq<char>) -> Seq<char> {
    "Remove Day "@ + int_dec(day as int) + " of **"@ + name
        + "**? The stored files are deleted too. This cannot be undone."@
}

/// The confirmation asked before removing a day.
pub fn delete_prompt(day: i64, name: &str) -> (r: String)
    ensures
        r@ == delete_prompt_spec(day, name@),
{
    let mut out = String::new();
    push_str(&mut out, "Remove Day ");
    push_i64_dec(&mut out, day);
    push_str(&mut out, " of **");
    push_str(&mut out, name);
    push_str(&mut out, "**? The stored files are deleted too. This cannot be undone.");
    out
}

/// The log line written when a day is removed.
pub open spec fn delete_log_spec(day: i64, name: Seq<char>, by: Seq<char>) -> Seq<char> {
    "🗑️ Day "@ + int_dec(day as int) + " of **"@ + name + "** removed by "@ + by
}

/// The log line written when a day is removed.
pub fn delete_log_line(day: i64, name: &str, by: &str) -> (r: String)
    ensures
        r@ == delete_log_spec(day, name@, by@),
{
    let mut out = String::new();
    push_str(&mut out, "🗑️ Day ");
    push_i64_dec(&mut out, day);
    push_str(&mut out, " of **");
    push_str(&mut out, name);
    push_str(&mut out, "** removed by ");
    push_str(&mut out, by);
    out
}

// ---------------------------------------------------------------------
// Export and import
// ---------------------------------------------------------------------

/// Reply to `/export` for a series with nothing archived.
pub open spec fn nothing_to_export_spec(name: Seq<char>) -> Seq<char> {
    "**"@ + name + "** has nothing to export yet."@
}

/// Reply to `/export` for a series with nothing archived.
pub fn nothing_to_export_reply(name: &str) -> (r: String)
    ensures
        r@ == nothing_to_export_spec(name@),
{
    let mut out = String::new();
    push_str(&mut out, "**");
    push_str(&mut out, name);
    push_str(&mut out, "** has nothing to export yet.");
    out
}

/// The `/export` reply and the name of the attached file.
pub open spec fn export_reply_spec(name: Seq<char>, count: nat) -> (Seq<char>, Seq<char>) {
    (
        "🍃 **"@ + name + "** — "@ + nat_dec(count) + " archived days."@,
        "leaf-export-"@ + name + ".json"@,
    )
}

/// The `/export` reply and the name of the attached file.
pub fn export_reply(name: &str, count: usize) -> (r: (String, String))
    ensures
        (r.0@, r.1@) == export_reply_spec(name@, count as nat),
{
    let mut text = String::new();
    push_str(&mut text, "🍃 **");
    push_str(&mut text, name);
    push_str(&mut text, "** — ");
    push_u64_dec(&mut text, count as u64);
    push_str(&mut text, " archived days.");
    let mut file = String::new();
    push_str(&mut file, "leaf-export-");
    push_str(&mut file, name);
    push_str(&mut file, ".json");
    (text, file)
}

/// Reply to `/import` naming a series that does not exist.
pub open spec fn import_target_missing_spec(name: Seq<char>) -> Seq<char> {
    "No series named **"@ + name + "** here — create it in the leaf Activity first."@
}

/// Reply to `/import` naming a series that does not exist.
pub fn import_target_missing_reply(name: &str) -> (r: String)
    ensures
        r@ == import_target_missing_spec(name@),
{
    let mut out = String::new();
    push_str(&mut out, "No series named **");
    push_str(&mut out, name);
    push_str(&mut out, "** here — create it in the leaf Activity first.");
    out
}

/// Reply to `/import` with a file over the size limit.
pub const IMPORT_TOO_LARGE_MESSAGE: &'static str = "🍂 That file is over the 24MB import limit.";

/// Reply to `/import` with a file that does not parse.
pub fn import_parse_reply(e: &crate::transfer::TransferParseError) -> (r: String)
    ensures
        r@ == "🍂 "@ + crate::transfer::parse_error_text(*e),
{
    let mut out = String::new();
    push_str(&mut out, "🍂 ");
    let t = e.text();
    push_str(&mut out, t.as_str());
    out
}

/// The confirmation asked before an import writes anything.
pub open spec fn import_prompt_spec(name: Seq<char>, total: nat, fresh: nat, collisions: nat) -> Seq<char> {
    "Import into **"@ + name + "**: "@ + nat_dec(total) + " entries — "@ + nat_dec(fresh) + " new, "@
        + nat_dec(collisions)
        + " already archived (will be skipped). Media is recorded as missing; `leaf-migrate` re-fetches the actual files. Proceed?"@
}

/// The confirmation asked before an import writes anything.
pub fn import_prompt(name: &str, total: usize, fresh: usize, collisions: usize) -> (r: String)
    ensures
        r@ == import_prompt_spec(name@, total as nat, fresh as nat, collisions as nat),
{
    let mut out = String::new();
    push_str(&mut out, "Import into **");
    push_str(&mut out, name);
    push_str(&mut out, "**: ");
    push_u64_dec(&mut out, total as u64);
    push_str(&mut out, " entries — ");
    push_u64_dec(&mut out, fresh as u64);
    push_str(&mut out, " new, ");
    push_u64_dec(&mut out, collisions as u64);
    push_str(
        &mut out,
        " already archived (will be skipped). Media is recorded as missing; `leaf-migrate` re-fetches the actual files. Proceed?",
    );
    out
}

/// How a bulk import is going: days imported, and days skipped because
/// they were already archived.
#[derive(Debug, Clone, Copy, PartialEq, Eq, Structural)]
pub struct ImportTally {
    /// Days written.
    pub imported: usize,
    /// Days already archived, left alone.
    pub skipped: usize,
}

/// Folds one insert into the tally: a written day counts as imported, an
/// already-archived day as skipped, and any other store failure stops the
/// import with that failure.
pub fn tally_insert(t: ImportTally, outcome: Result<(), crate::store::DbError>) -> (r: Result<ImportTally, crate::store::DbError>)
    requires
        t.imported + t.skipped < usize::MAX,
    ensures
        match outcome {
            Ok(()) => r == Ok::<ImportTally, crate::store::DbError>(
                ImportTally { imported: (t.imported + 1) as usize, skipped: t.skipped },
            ),
            Err(crate::store::DbError::DuplicateDay(_)) => r == Ok::<
                ImportTally,
                crate::store::DbError,
            >(ImportTally { imported: t.imported, skipped: (t.skipped + 1) as usize }),
            Err(e) => r == Err::<ImportTally, crate::store::DbError>(e),
        },
{
    match outcome {
        Ok(()) => Ok(ImportTally { imported: t.imported + 1, skipped: t.skipped }),
        Err(crate::store::DbError::DuplicateDay(_)) => Ok(
            ImportTally { imported: t.imported, skipped: t.skipped + 1 },
        ),
        Err(e) => Err(e),
    }
}

/// The reply when an import finishes.
pub open spec fn import_done_spec(name: Seq<char>, t: ImportTally) -> Seq<char> {
    "🍃 Import into **"@ + name + "** done: "@ + nat_dec(t.imported as nat) + " imported, "@ + nat_dec(
        t.skipped as nat,
    ) + " skipped (already archived)."@
}

/// The reply when an import finishes.
pub fn import_done_reply(name: &str, t: ImportTally) -> (r: String)
    ensures
        r@ == import_done_spec(name@, t),
{
    let mut out = String::new();
    push_str(&mut out, "🍃 Import into **");
    push_str(&mut out, name);
    push_str(&mut out, "** done: ");
    push_u64_dec(&mut out, t.imported as u64);
    push_str(&mut out, " imported, ");
    push_u64_dec(&mut out, t.skipped as u64);
    push_str(&mut out, " skipped (already archived).");
    out
}

/// The log line written when an import finishes.
pub open spec fn import_log_spec(imported: nat, name: Seq<char>) -> Seq<char> {
    "📥 "@ + nat_dec(imported) + " days imported into **"@ + name + "**"@
}

/// The log line written when an import finishes.
pub fn import_log_line(imported: usize, name: &str) -> (r: String)
    ensures
        r@ == import_log_spec(imported as nat, name@),
{
    let mut out = String::new();
    push_str(&mut out, "📥 ");
    push_u64_dec(&mut out, imported as u64);
    push_str(&mut out, " days imported into **");
    push_str(&mut out, name);
    push_str(&mut out, "**");
    out
}

// ---------------------------------------------------------------------
// Series commands
// ---------------------------------------------------------------------

/// Cadence choices shown in the slash UI.
#[derive(Debug, Clone, Copy, PartialEq, Eq, Structural)]
pub enum CadenceChoice {
    /// One post every day.
    Daily,
    /// Monday through Friday.
    Weekdays,
    /// Once a week.
    Weekly,
    /// No schedule.
    Freeform,
}

/// The cadence a choice stands for.
pub open spec fn cadence_of(c: CadenceChoice) -> Cadence {
    match c {
        CadenceChoice::Daily => Cadence::Daily,
        CadenceChoice::Weekdays => Cadence::Weekdays,
        CadenceChoice::Weekly => Cadence::Weekly,
        CadenceChoice::Freeform => Cadence::Freeform,
    }
}

impl From<CadenceChoice> for Cadence {
    fn from(value: CadenceChoice) -> (r: Cadence) {
        match value {
            CadenceChoice::Daily => Cadence::Daily,
            CadenceChoice::Weekdays => Cadence::Weekdays,
            CadenceChoice::Weekly => Cadence::Weekly,
            CadenceChoice::Freeform => Cadence::Freeform,
        }
    }
}

impl vstd::std_specs::convert::FromSpecImpl<CadenceChoice> for Cadence {
    open spec fn obeys_from_spec() -> bool {
        true
    }

    open spec fn from_spec(value: CadenceChoice) -> Cadence {
        cadence_of(value)
    }
}

/// Privacy choices shown in the slash UI.
#[derive(Debug, Clone, Copy, PartialEq, Eq, Structural)]
pub enum PrivacyChoice {
    /// Everyone in the server can view.
    Public,
    /// Only holders of a chosen role can view.
    RoleGated,
    /// Only you (and admins) can view.
    CreatorOnly,
}

/// The privacy a choice stands for.
pub open spec fn privacy_of(c: PrivacyChoice) -> Privacy {
    match c {
        PrivacyChoice::Public => Privacy::Public,
        PrivacyChoice::RoleGated => Privacy::RoleGated,
        PrivacyChoice::CreatorOnly => Privacy::CreatorOnly,
    }
}

impl From<PrivacyChoice> for Privacy {
    fn from(value: PrivacyChoice) -> (r: Privacy) {
        match value {
            PrivacyChoice::Public => Privacy::Public,
            PrivacyChoice::RoleGated => Privacy::RoleGated,
            PrivacyChoice::CreatorOnly => Privacy::CreatorOnly,
        }
    }
}

impl vstd::std_specs::convert::FromSpecImpl<PrivacyChoice> for Privacy {
    open spec fn obeys_from_spec() -> bool {
        true
    }

    open spec fn from_spec(value: PrivacyChoice) -> Privacy {
        privacy_of(value)
    }
}

/// Whether the member holds the guild's creator role: `None` when no role
/// is configured; `false` when the configured role is not a snowflake or
/// the member is unknown or lacks it.
pub open spec fn creator_role_spec(creator_role_id: Option<String>, member_roles: Option<Seq<u64>>) -> Option<bool> {
    match creator_role_id {
        None => None,
        Some(r) => match parse_u64_spec(r@) {
            None => Some(false),
            Some(id) => Some(member_roles matches Some(roles) && roles.contains(id)),
        },
    }
}

fn contains_u64(v: &Vec<u64>, x: u64) -> (r: bool)
    ensures
        r == v@.contains(x),
{
    let mut i: usize = 0;
    while i < v.len()
        invariant
            i <= v.len(),
            forall|k: int| 0 <= k < i ==> v@[k] != x,
        decreases v.len() - i,
    {
        if v[i] == x {
            assert(v@[i as int] == x);
            return true;
        }
        i = i + 1;
    }
    false
}

/// Whether the member holds the guild's creator role.
pub fn has_creator_role(creator_role_id: &Option<String>, member_roles: Option<&Vec<u64>>) -> (r: Option<bool>)
    ensures
        r == creator_role_spec(*creator_role_id, match member_roles {
            Some(v) => Some(v@),
            None => None,
        }),
{
    match creator_role_id {
        None => None,
        Some(role) => match parse_u64(role.as_str()) {
            None => Some(false),
            Some(id) => match member_roles {
                None => Some(false),
                Some(roles) => Some(contains_u64(roles, id)),
            },
        },
    }
}

/// The lifecycle state a new series starts in.
pub fn creation_state(settings: &GuildSettings) -> (r: SeriesState)
    ensures
        r == (if settings.sprout_enabled { SeriesState::Sprout } else { SeriesState::Active }),
{
    if settings.sprout_enabled {
        SeriesState::Sprout
    } else {
        SeriesState::Active
    }
}

/// The reply when a series is created.
pub open spec fn planted_reply_spec(name: Seq<char>, channel_id: Seq<char>, state: SeriesState, threshold: i64) -> Seq<char> {
    "🍃 **"@ + name + "** is planted in <#"@ + channel_id + ">. Post, then right-click → Apps → *Archive to Series*."@
        + (if state == SeriesState::Sprout {
        "\n🌱 It starts as a *sprout*: archive "@ + int_dec(threshold as int) + " posts and it goes public."@
    } else {
        ""@
    })
}

/// The reply when a series is created.
pub fn planted_reply(name: &str, channel_id: &str, state: SeriesState, threshold: i64) -> (r: String)
    ensures
        r@ == planted_reply_spec(name@, channel_id@, state, threshold),
{
    let mut s = String::new();
    push_str(&mut s, "🍃 **");
    push_str(&mut s, name);
    push_str(&mut s, "** is planted in <#");
    push_str(&mut s, channel_id);
    push_str(&mut s, ">. Post, then right-click → Apps → *Archive to Series*.");
    if state == SeriesState::Sprout {
        push_str(&mut s, "\n🌱 It starts as a *sprout*: archive ");
        push_i64_dec(&mut s, threshold);
        push_str(&mut s, " posts and it goes public.");
    }
    proof {
        reveal_strlit("");
    }
    assert(s@ =~= planted_reply_spec(name@, channel_id@, state, threshold));
    s
}

/// One line of the series list.
pub open spec fn list_line_spec(s: Series, count: i64) -> Seq<char> {
    let state = match s.state {
        SeriesState::Sprout => " 🌱"@,
        SeriesState::Revoked => " (revoked)"@,
        SeriesState::Active => ""@,
    };
    let channel = if s.channels@.len() > 0 {
        s.channels@[0]@
    } else {
        "?"@
    };
    s.emoji@ + " **"@ + s.name@ + "**"@ + state + " — "@ + int_dec(count as int) + " days archived, "@
        + s.cadence.text() + " in <#"@ + channel + ">"@
}

/// One line of the series list: emoji, name, state mark, archived count,
/// cadence and channel.
pub fn list_line(s: &Series, count: i64) -> (r: String)
    ensures
        r@ == list_line_spec(*s, count),
{
    let mut out = String::new();
    push_str(&mut out, s.emoji.as_str());
    push_str(&mut out, " **");
    push_str(&mut out, s.name.as_str());
    push_str(&mut out, "**");
    push_str(&mut out, match s.state {
        SeriesState::Sprout => " 🌱",
        SeriesState::Revoked => " (revoked)",
        SeriesState::Active => "",
    });
    push_str(&mut out, " — ");
    push_i64_dec(&mut out, count);
    push_str(&mut out, " days archived, ");
    push_str(&mut out, s.cadence.as_str());
    push_str(&mut out, " in <#");
    if s.channels.len() > 0 {
        push_str(&mut out, s.channels[0].as_str());
    } else {
        push_str(&mut out, "?");
    }
    push_str(&mut out, ">");
    assert(out@ =~= list_line_spec(*s, count));
    out
}

/// The series `/series list` shows: everyone's to an admin, otherwise
/// the invoker's own.
pub open spec fn listed(s: Series, me: Seq<char>, admin: bool) -> bool {
    admin || s.creator_id@ == me
}

/// The list lines of the first `n` entries `(series, archived days)`.
pub open spec fn list_lines_upto(entries: Seq<(Series, i64)>, me: Seq<char>, admin: bool, n: int) -> Seq<Seq<char>>
    decreases n,
{
    if n <= 0 {
        Seq::empty()
    } else {
        let prev = list_lines_upto(entries, me, admin, n - 1);
        if listed(entries[n - 1].0, me, admin) {
            prev.push(list_line_spec(entries[n - 1].0, entries[n - 1].1))
        } else {
            prev
        }
    }
}

/// Lines joined with newlines.
pub open spec fn join_lines(lines: Seq<Seq<char>>) -> Seq<char>
    decreases lines.len(),
{
    if lines.len() == 0 {
        Seq::empty()
    } else if lines.len() == 1 {
        lines[0]
    } else {
        join_lines(lines.drop_last()) + "\n"@ + lines.last()
    }
}

/// Reply to `/series list` when it has nothing to show.
pub const EMPTY_LIST_MESSAGE: &'static str = "No series yet. `/series create` plants one.";

/// The `/series list` reply.
pub open spec fn list_reply_spec(entries: Seq<(Series, i64)>, me: Seq<char>, admin: bool) -> Seq<char> {
    let lines = list_lines_upto(entries, me, admin, entries.len() as int);
    if lines.len() == 0 {
        EMPTY_LIST_MESSAGE@
    } else {
        join_lines(lines)
    }
}

/// The `/series list` reply from each series of the guild with its
/// archived-day count: one line per series shown, or a hint when none is.
pub fn list_reply(entries: &Vec<(Series, i64)>, me: &str, admin: bool) -> (r: String)
    ensures
        r@ == list_reply_spec(entries@, me@, admin),
{
    let mut out = String::new();
    let mut lines: usize = 0;
    let mut i: usize = 0;
    while i < entries.len()
        invariant
            i <= entries.len(),
            lines == list_lines_upto(entries@, me@, admin, i as int).len(),
            lines <= i,
            out@ == join_lines(list_lines_upto(entries@, me@, admin, i as int)),
        decreases entries.len() - i,
    {
        let (s, count) = &entries[i];
        if admin || crate::text::str_eq(s.creator_id.as_str(), me) {
            let line = list_line(s, *count);
            let ghost prev = list_lines_upto(entries@, me@, admin, i as int);
            if lines > 0 {
                push_str(&mut out, "\n");
            }
            push_str(&mut out, line.as_str());
            lines = lines + 1;
            proof {
                let now = prev.push(line@);
                assert(now.drop_last() =~= prev);
                assert(out@ =~= join_lines(now));
            }
        }
        i = i + 1;
    }
    if lines == 0 {
        EMPTY_LIST_MESSAGE.to_owned()
    } else {
        out
    }
}

/// The changes `/series edit` can make; an omitted option leaves its
/// field alone.
#[derive(Debug, Clone)]
pub struct SeriesEdit {
    /// New description.
    pub description: Option<String>,
    /// New reaction emoji.
    pub emoji: Option<String>,
    /// New cadence.
    pub cadence: Option<Cadence>,
    /// New privacy.
    pub privacy: Option<Privacy>,
    /// New role for role-gated privacy.
    pub privacy_role_id: Option<String>,
    /// Move to this watched channel.
    pub channel_id: Option<String>,
}

/// `n` is `s` with the edit's given options applied.
pub open spec fn edited(s: Series, e: SeriesEdit, n: Series) -> bool {
    &&& n.id == s.id
    &&& n.guild_id == s.guild_id
    &&& n.creator_id == s.creator_id
    &&& n.name == s.name
    &&& n.description@ == (match e.description {
        Some(d) => d@,
        None => s.description@,
    })
    &&& n.emoji@ == (match e.emoji {
        Some(x) => x@,
        None => s.emoji@,
    })
    &&& n.cadence == (match e.cadence {
        Some(c) => c,
        None => s.cadence,
    })
    &&& n.privacy == (match e.privacy {
        Some(p) => p,
        None => s.privacy,
    })
    &&& n.privacy_role_id == (match e.privacy_role_id {
        Some(r) => Some(r),
        None => s.privacy_role_id,
    })
    &&& strs_view(n.channels@) == (match e.channel_id {
        Some(c) => seq![c@],
        None => strs_view(s.channels@),
    })
    &&& n.detection_mode == s.detection_mode
    &&& n.start_day == s.start_day
    &&& n.reminder_enabled == s.reminder_enabled
    &&& n.reminder_time == s.reminder_time
    &&& n.reminder_timezone == s.reminder_timezone
    &&& n.reminder_dm == s.reminder_dm
    &&& n.milestone_template == s.milestone_template
    &&& n.state == s.state
    &&& n.created_at == s.created_at
}

/// Applies `/series edit` to a series: refused only when the new channel
/// is not one the guild archives from.
pub fn edit_series(settings: &GuildSettings, s: Series, e: SeriesEdit) -> (r: Result<Series, PolicyViolation>)
    ensures
        r is Err <==> (e.channel_id matches Some(c) && !channel_allowed_spec(*settings, c@)),
        r matches Err(v) ==> v == PolicyViolation::ChannelNotWatched,
        r matches Ok(n) ==> edited(s, e, n),
{
    let ghost s0 = s;
    let ghost e0 = e;
    let mut s = s;
    let SeriesEdit { description, emoji, cadence, privacy, privacy_role_id, channel_id } = e;
    match description {
        Some(v) => s.description = v,
        None => {},
    }
    match emoji {
        Some(v) => s.emoji = v,
        None => {},
    }
    match cadence {
        Some(v) => s.cadence = v,
        None => {},
    }
    match privacy {
        Some(v) => s.privacy = v,
        None => {},
    }
    match privacy_role_id {
        Some(v) => s.privacy_role_id = Some(v),
        None => {},
    }
    match channel_id {
        Some(id) => {
            if !channel_allowed(settings, id.as_str()) {
                return Err(PolicyViolation::ChannelNotWatched);
            }
            let ghost c = id@;
            let mut v: Vec<String> = Vec::new();
            v.push(id);
            assert(strs_view(v@) =~= seq![c]);
            s.channels = v;
        },
        None => {},
    }
    assert(edited(s0, e0, s));
    Ok(s)
}

/// Reply after a successful `/series edit`.
pub open spec fn edited_reply_spec(name: Seq<char>) -> Seq<char> {
    "🍃 **"@ + name + "** updated."@
}

/// Reply after a successful `/series edit`.
pub fn edited_reply(name: &str) -> (r: String)
    ensures
        r@ == edited_reply_spec(name@),
{
    let mut out = String::new();
    push_str(&mut out, "🍃 **");
    push_str(&mut out, name);
    push_str(&mut out, "** updated.");
    out
}

/// Reply when no series of that name exists in the guild.
pub open spec fn not_found_reply_spec(name: Seq<char>) -> Seq<char> {
    "No series named **"@ + name + "** here."@
}

/// Reply when no series of that name exists in the guild.
pub fn not_found_reply(name: &str) -> (r: String)
    ensures
        r@ == not_found_reply_spec(name@),
{
    let mut out = String::new();
    push_str(&mut out, "No series named **");
    push_str(&mut out, name);
    push_str(&mut out, "** here.");
    out
}

/// Reply when someone other than the creator or an admin tries to manage
/// a series.
pub const NOT_OWNER_MESSAGE: &'static str = "🍂 Only the series creator (or an admin) can do that.";

/// The confirmation asked before revoking a series.
pub open spec fn revoke_prompt_spec(name: Seq<char>, creator_id: Seq<char>) -> Seq<char> {
    "Revoke **"@ + name + "** by <@"@ + creator_id
        + ">? Its archive stays stored but becomes hidden and read-only."@
}

/// The confirmation asked before revoking a series.
pub fn revoke_prompt(name: &str, creator_id: &str) -> (r: String)
    ensures
        r@ == revoke_prompt_spec(name@, creator_id@),
{
    let mut out = String::new();
    push_str(&mut out, "Revoke **");
    push_str(&mut out, name);
    push_str(&mut out, "** by <@");
    push_str(&mut out, creator_id);
    push_str(&mut out, ">? Its archive stays stored but becomes hidden and read-only.");
    out
}

/// The log line written when a series is revoked.
pub open spec fn revoke_log_spec(name: Seq<char>, by: Seq<char>) -> Seq<char> {
    "🗑️ series **"@ + name + "** revoked by "@ + by
}

/// The log line written when a series is revoked.
pub fn revoke_log_line(name: &str, by: &str) -> (r: String)
    ensures
        r@ == revoke_log_spec(name@, by@),
{
    let mut out = String::new();
    push_str(&mut out, "🗑️ series **");
    push_str(&mut out, name);
    push_str(&mut out, "** revoked by ");
    push_str(&mut out, by);
    out
}

/// Reply when a new series' name is already used in the guild.
pub open spec fn name_taken_spec(name: Seq<char>) -> Seq<char> {
    "🍂 A series named **"@ + name + "** already exists here."@
}

/// Reply when a new series' name is already used in the guild.
pub fn name_taken_reply(name: &str) -> (r: String)
    ensures
        r@ == name_taken_spec(name@),
{
    let mut out = String::new();
    push_str(&mut out, "🍂 A series named **");
    push_str(&mut out, name);
    push_str(&mut out, "** already exists here.");
    out
}

/// Reply when a creation-policy rule blocks a new series.
pub fn policy_reply(v: &PolicyViolation) -> (r: String)
    ensures
        r@ == "🍂 "@ + v.message_spec(),
{
    let mut out = String::new();
    push_str(&mut out, "🍂 ");
    let m = v.message();
    push_str(&mut out, m.as_str());
    out
}

/// The log line written when a series is planted.
pub open spec fn planted_log_spec(author: Seq<char>, name: Seq<char>) -> Seq<char> {
    "🍃 "@ + author + " planted series **"@ + name + "**"@
}

/// The log line written when a series is planted.
pub fn planted_log_line(author: &str, name: &str) -> (r: String)
    ensures
        r@ == planted_log_spec(author@, name@),
{
    let mut out = String::new();
    push_str(&mut out, "🍃 ");
    push_str(&mut out, author);
    push_str(&mut out, " planted series **");
    push_str(&mut out, name);
    push_str(&mut out, "**");
    out
}

/// What `/series reminder` does with its options.
#[derive(Debug, Clone, PartialEq, Eq)]
pub enum ReminderCommand {
    /// Turn reminders off, keeping the stored time, zone and delivery mode.
    Disable,
    /// Enabling needs a time.
    NeedTime,
    /// The time is not a 24-hour `HH:MM`.
    BadTime,
    /// The timezone override is not one chrono-tz knows.
    BadZone,
    /// Freeform series have no schedule to remind against.
    Freeform,
    /// Turn reminders on.
    Enable {
        /// `HH:MM`.
        time: String,
        /// Timezone override, if any.
        timezone: Option<String>,
        /// Deliver by DM (default) or channel ping.
        dm: bool,
    },
}

/// The decision of `/series reminder`, given whether chrono reads the
/// time and knows the zone.
pub open spec fn reminder_command_spec(enabled: bool, time: Option<Seq<char>>, dm: Option<bool>, timezone: Option<Seq<char>>, cadence: Cadence) -> (bool, Option<Seq<char>>, Option<Seq<char>>, bool, int) {
    // (enable?, time, zone, dm, refusal: 0 none, 1 need time, 2 bad time, 3 bad zone, 4 freeform)
    if !enabled {
        (false, None, None, false, 0)
    } else if time is None {
        (false, None, None, false, 1)
    } else if crate::clock::hh_mm_seconds(time->0) is None {
        (false, None, None, false, 2)
    } else if timezone matches Some(z) && !crate::clock::tz_is_known(z) {
        (false, None, None, false, 3)
    } else if cadence == Cadence::Freeform {
        (false, None, None, false, 4)
    } else {
        (true, time, timezone, dm.unwrap_or(true), 0)
    }
}

/// Decides `/series reminder`: off needs nothing; on needs a valid time, a
/// known zone override (if given), and a scheduled cadence.
pub fn reminder_command(enabled: bool, time: Option<String>, dm: Option<bool>, timezone: Option<String>, cadence: Cadence) -> (r: ReminderCommand)
    ensures
        ({
            let (on, t, z, d, refusal) = reminder_command_spec(enabled, match time {
                Some(x) => Some(x@),
                None => None,
            }, dm, match timezone {
                Some(x) => Some(x@),
                None => None,
            }, cadence);
            match r {
                ReminderCommand::Disable => !enabled,
                ReminderCommand::NeedTime => refusal == 1,
                ReminderCommand::BadTime => refusal == 2,
                ReminderCommand::BadZone => refusal == 3,
                ReminderCommand::Freeform => refusal == 4,
                ReminderCommand::Enable { time: rt, timezone: rz, dm: rd } => on && t == Some(rt@) && rd == d
                    && match rz {
                    Some(x) => z == Some(x@),
                    None => z is None,
                },
            }
        }),
{
    if !enabled {
        return ReminderCommand::Disable;
    }
    let t = match time {
        None => return ReminderCommand::NeedTime,
        Some(t) => t,
    };
    if !crate::series_ops::valid_hh_mm(t.as_str()) {
        return ReminderCommand::BadTime;
    }
    if let Some(z) = &timezone {
        if !crate::clock::tz_known(z.as_str()) {
            return ReminderCommand::BadZone;
        }
    }
    if cadence == Cadence::Freeform {
        return ReminderCommand::Freeform;
    }
    ReminderCommand::Enable {
        time: t,
        timezone,
        dm: match dm {
            Some(d) => d,
            None => true,
        },
    }
}

/// The text of an optional string, empty when absent.
pub open spec fn text_or_empty(o: Option<Seq<char>>) -> Seq<char> {
    match o {
        Some(t) => t,
        None => Seq::empty(),
    }
}

/// The reply to `/series reminder` for series `name`, given the raw `time`
/// and `timezone` options and the guild's default zone.
pub open spec fn reminder_reply_spec(
    cmd: ReminderCommand,
    name: Seq<char>,
    time: Option<Seq<char>>,
    timezone: Option<Seq<char>>,
    guild_tz: Seq<char>,
) -> Seq<char> {
    match cmd {
        ReminderCommand::Disable => "🍃 Reminders off for **"@ + name + "**."@,
        ReminderCommand::NeedTime => "To enable reminders, give a `time` (24h HH:MM)."@,
        ReminderCommand::BadTime => "`"@ + text_or_empty(time)
            + "` isn't a valid 24h time — use HH:MM, e.g. 17:30."@,
        ReminderCommand::BadZone => "`"@ + text_or_empty(timezone)
            + "` isn't a timezone I know — pick a valid IANA name."@,
        ReminderCommand::Freeform => "🍂 Freeform series have no schedule to remind against — set a cadence with `/series edit` first."@,
        ReminderCommand::Enable { time: t, timezone: z, dm } => "🍃 Reminders on for **"@ + name + "** at `"@
            + t@ + "` ("@ + (match z {
            Some(zz) => zz@,
            None => guild_tz,
        }) + "), "@ + (if dm {
            "by DM"@
        } else {
            "in the channel"@
        }) + ", when you're behind."@,
    }
}

/// The reply to `/series reminder`.
pub fn reminder_reply(
    cmd: &ReminderCommand,
    name: &str,
    time: &Option<String>,
    timezone: &Option<String>,
    guild_tz: &str,
) -> (r: String)
    ensures
        r@ == reminder_reply_spec(
            *cmd,
            name@,
            match time {
                Some(t) => Some(t@),
                None => None,
            },
            match timezone {
                Some(z) => Some(z@),
                None => None,
            },
            guild_tz@,
        ),
{
    let mut out = String::new();
    match cmd {
        ReminderCommand::Disable => {
            push_str(&mut out, "🍃 Reminders off for **");
            push_str(&mut out, name);
            push_str(&mut out, "**.");
        },
        ReminderCommand::NeedTime => {
            push_str(&mut out, "To enable reminders, give a `time` (24h HH:MM).");
        },
        ReminderCommand::BadTime => {
            push_str(&mut out, "`");
            match time {
                Some(t) => push_str(&mut out, t.as_str()),
                None => {},
            }
            push_str(&mut out, "` isn't a valid 24h time — use HH:MM, e.g. 17:30.");
        },
        ReminderCommand::BadZone => {
            push_str(&mut out, "`");
            match timezone {
                Some(z) => push_str(&mut out, z.as_str()),
                None => {},
            }
            push_str(&mut out, "` isn't a timezone I know — pick a valid IANA name.");
        },
        ReminderCommand::Freeform => {
            push_str(
                &mut out,
                "🍂 Freeform series have no schedule to remind against — set a cadence with `/series edit` first.",
            );
        },
        ReminderCommand::Enable { time: t, timezone: z, dm } => {
            push_str(&mut out, "🍃 Reminders on for **");
            push_str(&mut out, name);
            push_str(&mut out, "** at `");
            push_str(&mut out, t.as_str());
            push_str(&mut out, "` (");
            match z {
                Some(zz) => push_str(&mut out, zz.as_str()),
                None => push_str(&mut out, guild_tz),
            }
            push_str(&mut out, "), ");
            push_str(&mut out, if *dm {
                "by DM"
            } else {
                "in the channel"
            });
            push_str(&mut out, ", when you're behind.");
        },
    }
    out
}

// ---------------------------------------------------------------------
// Setup, recap and settings texts
// ---------------------------------------------------------------------

/// `<#id>` mentions of channels, space-separated.
pub open spec fn mentions(ids: Seq<String>, n: int) -> Seq<char>
    decreases n,
{
    if n <= 0 {
        Seq::empty()
    } else if n == 1 {
        "<#"@ + ids[0]@ + ">"@
    } else {
        mentions(ids, n - 1) + " <#"@ + ids[n - 1]@ + ">"@
    }
}

fn push_mentions(s: &mut String, ids: &Vec<String>)
    ensures
        final(s)@ == old(s)@ + mentions(ids@, ids.len() as int),
{
    let mut i: usize = 0;
    while i < ids.len()
        invariant
            i <= ids.len(),
            s@ == old(s)@ + mentions(ids@, i as int),
        decreases ids.len() - i,
    {
        if i > 0 {
            push_str(s, " <#");
        } else {
            push_str(s, "<#");
        }
        push_str(s, ids[i].as_str());
        push_str(s, ">");
        i = i + 1;
        assert(s@ =~= old(s)@ + mentions(ids@, i as int));
    }
}

/// Reply to `/settings show` in a guild that has no settings yet.
pub const NOT_SET_UP_MESSAGE: &'static str = "🌱 Not set up yet — run `/setup`.";

/// The first lines of the `/settings show` text: setup state, channels and
/// timezone.
pub open spec fn settings_head_spec(s: GuildSettings) -> Seq<char> {
    let watched = if s.watched_channels@.len() == 0 {
        "none"@
    } else {
        mentions(s.watched_channels@, s.watched_channels@.len() as int)
    };
    let log = match s.log_channel_id {
        Some(c) => "<#"@ + c@ + ">"@,
        None => "none"@,
    };
    "🍃 **leaf settings**\nSetup complete: "@ + (if s.setup_complete {
        "yes"@
    } else {
        "no"@
    }) + "\nWatched channels: "@ + watched + "\nLog channel: "@ + log + "\nTimezone: `"@
        + s.timezone@ + "`"@
}

/// The last lines of the `/settings show` text: the creation policy.
pub open spec fn settings_tail_spec(s: GuildSettings) -> Seq<char> {
    let role = match s.creator_role_id {
        Some(r) => "<@&"@ + r@ + ">"@,
        None => "none"@,
    };
    "\nCreator role: "@ + role + "\nMax series per user: "@ + int_dec(s.max_series_per_user as int)
        + "\nMin account age: "@ + int_dec(s.min_account_age_days as int)
        + " days\nMin membership age: "@ + int_dec(s.min_membership_age_days as int)
        + " days\nSprout probation: "@ + (if s.sprout_enabled {
        "on"@
    } else {
        "off"@
    }) + " (threshold "@ + int_dec(s.sprout_threshold as int) + ")"@
}

/// The `/settings show` text.
pub open spec fn settings_text_spec(s: GuildSettings) -> Seq<char> {
    settings_head_spec(s) + settings_tail_spec(s)
}

fn push_settings_head(out: &mut String, s: &GuildSettings)
    ensures
        final(out)@ == old(out)@ + settings_head_spec(*s),
{
    let ghost start = out@;
    push_str(out, "🍃 **leaf settings**\nSetup complete: ");
    push_str(out, if s.setup_complete {
        "yes"
    } else {
        "no"
    });
    push_str(out, "\nWatched channels: ");
    if s.watched_channels.len() == 0 {
        push_str(out, "none");
    } else {
        push_mentions(out, &s.watched_channels);
    }
    push_str(out, "\nLog channel: ");
    match &s.log_channel_id {
        Some(c) => {
            push_str(out, "<#");
            push_str(out, c.as_str());
            push_str(out, ">");
        },
        None => push_str(out, "none"),
    }
    push_str(out, "\nTimezone: `");
    push_str(out, s.timezone.as_str());
    push_str(out, "`");
    assert(out@ =~= start + settings_head_spec(*s));
}

fn push_settings_tail(out: &mut String, s: &GuildSettings)
    ensures
        final(out)@ == old(out)@ + settings_tail_spec(*s),
{
    let ghost start = out@;
    push_str(out, "\nCreator role: ");
    match &s.creator_role_id {
        Some(r) => {
            push_str(out, "<@&");
            push_str(out, r.as_str());
            push_str(out, ">");
        },
        None => push_str(out, "none"),
    }
    push_str(out, "\nMax series per user: ");
    push_i64_dec(out, s.max_series_per_user);
    push_str(out, "\nMin account age: ");
    push_i64_dec(out, s.min_account_age_days);
    push_str(out, " days\nMin membership age: ");
    push_i64_dec(out, s.min_membership_age_days);
    push_str(out, " days\nSprout probation: ");
    push_str(out, if s.sprout_enabled {
        "on"
    } else {
        "off"
    });
    push_str(out, " (threshold ");
    push_i64_dec(out, s.sprout_threshold);
    push_str(out, ")");
    assert(out@ =~= start + settings_tail_spec(*s));
}

/// The `/settings show` text: every setting of the guild, with channels
/// and roles as mentions.
pub fn settings_text(s: &GuildSettings) -> (r: String)
    ensures
        r@ == settings_text_spec(*s),
{
    let mut out = String::new();
    push_settings_head(&mut out, s);
    push_settings_tail(&mut out, s);
    assert(out@ =~= settings_text_spec(*s));
    out
}

/// The knobs `/settings policy` can turn; an omitted one is unchanged.
#[derive(Debug, Clone)]
pub struct PolicyEdit {
    /// Max live series per creator.
    pub max_series_per_user: Option<i64>,
    /// Minimum Discord account age in days.
    pub min_account_age_days: Option<i64>,
    /// Minimum server membership in days.
    pub min_membership_age_days: Option<i64>,
    /// Whether new series start as sprouts.
    pub sprout: Option<bool>,
    /// Posts needed to leave sprout.
    pub sprout_threshold: Option<i64>,
    /// Role required to create series.
    pub creator_role_id: Option<String>,
    /// `Some(true)` removes the creator-role requirement (wins over a new
    /// role).
    pub clear_creator_role: Option<bool>,
}

/// Reply after `/settings policy`.
pub const POLICY_UPDATED_MESSAGE: &'static str = "🍃 Policy updated. `/settings show` to review.";

/// Applies `/settings policy`: each given knob replaces its setting; clearing
/// the creator role wins over setting one.
pub fn apply_policy_edit(s: GuildSettings, e: PolicyEdit) -> (r: GuildSettings)
    ensures
        r.guild_id == s.guild_id,
        r.setup_complete == s.setup_complete,
        r.log_channel_id == s.log_channel_id,
        r.watched_channels == s.watched_channels,
        r.timezone == s.timezone,
        r.active_persona == s.active_persona,
        r.max_series_per_user == (match e.max_series_per_user {
            Some(v) => v,
            None => s.max_series_per_user,
        }),
        r.min_account_age_days == (match e.min_account_age_days {
            Some(v) => v,
            None => s.min_account_age_days,
        }),
        r.min_membership_age_days == (match e.min_membership_age_days {
            Some(v) => v,
            None => s.min_membership_age_days,
        }),
        r.sprout_enabled == (match e.sprout {
            Some(v) => v,
            None => s.sprout_enabled,
        }),
        r.sprout_threshold == (match e.sprout_threshold {
            Some(v) => v,
            None => s.sprout_threshold,
        }),
        r.creator_role_id == (if e.clear_creator_role == Some(true) {
            None
        } else {
            match e.creator_role_id {
                Some(v) => Some(v),
                None => s.creator_role_id,
            }
        }),
{
    let mut s = s;
    let PolicyEdit {
        max_series_per_user,
        min_account_age_days,
        min_membership_age_days,
        sprout,
        sprout_threshold,
        creator_role_id,
        clear_creator_role,
    } = e;
    match max_series_per_user {
        Some(v) => s.max_series_per_user = v,
        None => {},
    }
    match min_account_age_days {
        Some(v) => s.min_account_age_days = v,
        None => {},
    }
    match min_membership_age_days {
        Some(v) => s.min_membership_age_days = v,
        None => {},
    }
    match sprout {
        Some(v) => s.sprout_enabled = v,
        None => {},
    }
    match sprout_threshold {
        Some(v) => s.sprout_threshold = v,
        None => {},
    }
    match creator_role_id {
        Some(v) => s.creator_role_id = Some(v),
        None => {},
    }
    match clear_creator_role {
        Some(true) => s.creator_role_id = None,
        _ => {},
    }
    s
}

/// The reply to `/settings timezone`: accepted exactly when chrono-tz
/// knows the name (the caller then stores it), refused otherwise.
pub open spec fn timezone_reply_spec(tz: Seq<char>) -> Result<Seq<char>, Seq<char>> {
    if crate::clock::tz_is_known(tz) {
        Ok("🍃 Timezone set to `"@ + tz + "`."@)
    } else {
        Err("`"@ + tz + "` isn't a timezone I know — pick one from the list."@)
    }
}

/// Decides `/settings timezone`, with its reply.
pub fn timezone_reply(tz: &str) -> (r: Result<String, String>)
    ensures
        match r {
            Ok(m) => timezone_reply_spec(tz@) == Ok::<Seq<char>, Seq<char>>(m@),
            Err(m) => timezone_reply_spec(tz@) == Err::<Seq<char>, Seq<char>>(m@),
        },
{
    let mut out = String::new();
    if crate::clock::tz_known(tz) {
        push_str(&mut out, "🍃 Timezone set to `");
        push_str(&mut out, tz);
        push_str(&mut out, "`.");
        Ok(out)
    } else {
        push_str(&mut out, "`");
        push_str(&mut out, tz);
        push_str(&mut out, "` isn't a timezone I know — pick one from the list.");
        Err(out)
    }
}

/// The message shown when `/setup` is saved.
pub open spec fn setup_summary_spec(watched: Seq<String>, log_channel: Option<Seq<char>>) -> Seq<char> {
    let log_text = match log_channel {
        Some(c) => "<#"@ + c + ">"@,
        None => "none"@,
    };
    "🍃 **leaf is set up.**\nWatched: "@ + mentions(watched, watched.len() as int) + "\nLog channel: "@
        + log_text + "\nAnyone can now start a series — open the leaf Activity to create one."@
}

/// The message shown when `/setup` is saved: the watched channels and the
/// log channel.
pub fn setup_summary(watched: &Vec<String>, log_channel: Option<&str>) -> (r: String)
    ensures
        r@ == setup_summary_spec(watched@, match log_channel {
            Some(c) => Some(c@),
            None => None,
        }),
{
    let mut s = String::new();
    push_str(&mut s, "🍃 **leaf is set up.**\nWatched: ");
    push_mentions(&mut s, watched);
    push_str(&mut s, "\nLog channel: ");
    match log_channel {
        Some(c) => {
            push_str(&mut s, "<#");
            push_str(&mut s, c);
            push_str(&mut s, ">");
        },
        None => {
            push_str(&mut s, "none");
        },
    }
    push_str(&mut s, "\nAnyone can now start a series — open the leaf Activity to create one.");
    assert(s@ =~= setup_summary_spec(watched@, match log_channel {
        Some(c) => Some(c@),
        None => None,
    }));
    s
}

/// The first `/setup` message.
pub const SETUP_INTRO: &'static str = "🍃 **leaf setup** — pick the channels, then Save.\nPolicies (limits, sprout probation, timezone) keep their current values; tune them in the admin panel.";

/// The `/setup` message once nobody pressed anything in time.
pub const SETUP_TIMED_OUT: &'static str = "Setup timed out — run `/setup` again.";

/// Custom id of the watched-channels menu of `/setup`.
pub const SETUP_WATCHED_ID: &'static str = "setup-watched";

/// Custom id of the log-channel menu of `/setup`.
pub const SETUP_LOG_ID: &'static str = "setup-log";

/// Custom id of the Save button of `/setup`.
pub const SETUP_SAVE_ID: &'static str = "setup-save";

/// Custom id of the Cancel button of `/setup`.
pub const SETUP_CANCEL_ID: &'static str = "setup-cancel";

/// A channel pick in `/setup`: the watched-channels menu replaces the
/// watched channels; any other menu sets the log channel to its first pick
/// (none when nothing is picked).
pub fn setup_select(
    custom_id: &str,
    picked: Vec<String>,
    watched: Vec<String>,
    log_channel: Option<String>,
) -> (r: (Vec<String>, Option<String>))
    ensures
        custom_id@ == SETUP_WATCHED_ID@ ==> r.0 == picked && r.1 == log_channel,
        custom_id@ != SETUP_WATCHED_ID@ ==> r.0 == watched && r.1 == (if picked.len() > 0 {
            Some(picked@[0])
        } else {
            None::<String>
        }),
{
    if crate::text::str_eq(custom_id, SETUP_WATCHED_ID) {
        (picked, log_channel)
    } else {
        let mut picked = picked;
        let first = if picked.len() > 0 {
            Some(picked.remove(0))
        } else {
            None
        };
        (watched, first)
    }
}

/// Whether a `/setup` button press cancels (any other button saves).
pub fn setup_cancelled(custom_id: &str) -> (r: bool)
    ensures
        r == (custom_id@ == SETUP_CANCEL_ID@),
{
    crate::text::str_eq(custom_id, SETUP_CANCEL_ID)
}

/// What pressing a `/setup` button does: cancel changes nothing; saving
/// with no watched channel asks again; otherwise the settings are saved as
/// set up with the picked channels, and the summary is shown.
pub fn setup_finish(cancelled: bool, existing: &GuildSettings, watched: &Vec<String>, log_channel: &Option<String>) -> (r: (String, Option<GuildSettings>))
    ensures
        cancelled ==> r.0@ == "Setup cancelled — nothing changed."@ && r.1 is None,
        !cancelled && watched.len() == 0 ==> r.0@ == "Pick at least one watched channel, then Save — run `/setup` again."@ && r.1 is None,
        !cancelled && watched.len() > 0 ==> (r.1 matches Some(u) && {
            &&& u.watched_channels@ == watched@
            &&& u.log_channel_id == *log_channel
            &&& u.setup_complete
            &&& u.guild_id == existing.guild_id
            &&& u.timezone == existing.timezone
            &&& u.creator_role_id == existing.creator_role_id
            &&& u.max_series_per_user == existing.max_series_per_user
            &&& u.min_account_age_days == existing.min_account_age_days
            &&& u.min_membership_age_days == existing.min_membership_age_days
            &&& u.sprout_enabled == existing.sprout_enabled
            &&& u.sprout_threshold == existing.sprout_threshold
            &&& u.active_persona == existing.active_persona
            &&& r.0@ == setup_summary_spec(watched@, match log_channel {
                Some(c) => Some(c@),
                None => None,
            })
        }),
{
    if cancelled {
        return ("Setup cancelled — nothing changed.".to_owned(), None);
    }
    if watched.len() == 0 {
        return ("Pick at least one watched channel, then Save — run `/setup` again.".to_owned(), None);
    }
    let updated = GuildSettings {
        guild_id: existing.guild_id.clone(),
        setup_complete: true,
        log_channel_id: log_channel.clone(),
        watched_channels: watched.clone(),
        creator_role_id: existing.creator_role_id.clone(),
        timezone: existing.timezone.clone(),
        max_series_per_user: existing.max_series_per_user,
        min_account_age_days: existing.min_account_age_days,
        min_membership_age_days: existing.min_membership_age_days,
        sprout_enabled: existing.sprout_enabled,
        sprout_threshold: existing.sprout_threshold,
        active_persona: existing.active_persona.clone(),
    };
    let text = match log_channel {
        Some(c) => setup_summary(watched, Some(c.as_str())),
        None => setup_summary(watched, None),
    };
    (text, Some(updated))
}

/// The title of a yearly recap.
pub open spec fn recap_title(series_name: Seq<char>, year: i32) -> Seq<char> {
    "🍃 "@ + series_name + " — "@ + int_dec(year as int) + " wrapped"@
}

/// The recap of an empty year: the all-time total, gently.
pub open spec fn recap_empty_text(w: Wrapped) -> Seq<char> {
    "No posts in "@ + int_dec(w.year as int) + " yet. The archive holds "@ + int_dec(w.total_all_time as int)
        + " day"@ + plural_spec(w.total_all_time) + " all-time. 🌱"@
}

/// The busiest-month field: month name and count, or a dash.
pub open spec fn busiest_text(w: Wrapped) -> Seq<char> {
    match w.busiest_month {
        Some((m, n)) => month_name_spec(m) + " ("@ + int_dec(n as int) + " post"@ + plural_spec(n) + ")"@,
        None => "—"@,
    }
}

/// The range field: first and last day of the year, or a dash.
pub open spec fn span_text(w: Wrapped) -> Seq<char> {
    match (w.first_day, w.last_day) {
        (Some(a), Some(b)) => "Day "@ + int_dec(a as int) + " → Day "@ + int_dec(b as int),
        _ => "—"@,
    }
}

/// The rendered parts of a recap: title, then either a description (an
/// empty year) or the named fields.
#[derive(Debug, Clone)]
pub struct RecapText {
    /// Embed title.
    pub title: String,
    /// Description, for a year without posts.
    pub description: Option<String>,
    /// `(name, value)` fields, for a year with posts.
    pub fields: Vec<(String, String)>,
}

/// The fields of a recap with posts.
pub open spec fn recap_fields(w: Wrapped) -> Seq<(Seq<char>, Seq<char>)> {
    seq![
        ("Posts this year"@, int_dec(w.posts_in_year as int)),
        ("Longest streak"@, int_dec(w.longest_streak as int) + " days"@),
        ("Busiest month"@, busiest_text(w)),
        ("Range"@, span_text(w)),
        ("All-time total"@, int_dec(w.total_all_time as int)),
    ]
}

fn decimal(n: i64) -> (r: String)
    ensures
        r@ == int_dec(n as int),
{
    crate::text::i64_to_string(n)
}

/// The zone a recap places posts in: the guild's timezone when it has
/// settings and chrono-tz knows the name, UTC otherwise.
pub open spec fn recap_zone_spec(settings: Option<GuildSettings>) -> Seq<char> {
    match settings {
        Some(s) => if crate::clock::tz_is_known(s.timezone@) {
            s.timezone@
        } else {
            "UTC"@
        },
        None => "UTC"@,
    }
}

/// The zone a recap places posts in.
pub fn recap_zone(settings: &Option<GuildSettings>) -> (r: String)
    ensures
        r@ == recap_zone_spec(*settings),
{
    match settings {
        Some(s) => if crate::clock::tz_known(s.timezone.as_str()) {
            s.timezone.clone()
        } else {
            "UTC".to_owned()
        },
        None => "UTC".to_owned(),
    }
}

/// The year a recap covers: the requested one (1970 when it does not fit a
/// calendar year number), else the current year in the recap's zone (1970
/// when the moment cannot be placed there).
pub open spec fn recap_year_spec(requested: Option<i64>, zone: Seq<char>, now_unix: i64) -> i32 {
    match requested {
        Some(y) => if i32::MIN <= y && y <= i32::MAX {
            y as i32
        } else {
            1970
        },
        None => match crate::clock::local_time_in(zone, now_unix) {
            Some(l) => l.year,
            None => 1970,
        },
    }
}

/// The year a recap covers.
pub fn recap_year(requested: Option<i64>, zone: &str, now_unix: i64) -> (r: i32)
    ensures
        r == recap_year_spec(requested, zone@, now_unix),
{
    match requested {
        Some(y) => if i32::MIN as i64 <= y && y <= i32::MAX as i64 {
            y as i32
        } else {
            1970
        },
        None => match crate::clock::local_time(zone, now_unix) {
            Some(l) => l.year,
            None => 1970,
        },
    }
}

/// Renders a yearly recap; reads gently when the year was empty.
pub fn recap_text(series_name: &str, w: &Wrapped) -> (r: RecapText)
    ensures
        r.title@ == recap_title(series_name@, w.year),
        w.posts_in_year == 0 ==> (r.description matches Some(d) && d@ == recap_empty_text(*w)) && r.fields@.len() == 0,
        w.posts_in_year != 0 ==> r.description is None && r.fields@.map_values(|f: (String, String)| (f.0@, f.1@)) == recap_fields(*w),
{
    let mut title = String::new();
    push_str(&mut title, "🍃 ");
    push_str(&mut title, series_name);
    push_str(&mut title, " — ");
    push_i64_dec(&mut title, w.year as i64);
    push_str(&mut title, " wrapped");
    assert(title@ =~= recap_title(series_name@, w.year));
    if w.posts_in_year == 0 {
        let mut d = String::new();
        push_str(&mut d, "No posts in ");
        push_i64_dec(&mut d, w.year as i64);
        push_str(&mut d, " yet. The archive holds ");
        push_i64_dec(&mut d, w.total_all_time);
        push_str(&mut d, " day");
        push_str(&mut d, plural(w.total_all_time));
        push_str(&mut d, " all-time. 🌱");
        assert(d@ =~= recap_empty_text(*w));
        return RecapText { title, description: Some(d), fields: Vec::new() };
    }
    let busiest = match w.busiest_month {
        Some((m, n)) => {
            let mut b = String::new();
            push_str(&mut b, month_name(m));
            push_str(&mut b, " (");
            push_i64_dec(&mut b, n);
            push_str(&mut b, " post");
            push_str(&mut b, plural(n));
            push_str(&mut b, ")");
            assert(b@ =~= busiest_text(*w));
            b
        },
        None => "—".to_owned(),
    };
    let span = match (w.first_day, w.last_day) {
        (Some(a), Some(b)) => {
            let mut t = String::new();
            push_str(&mut t, "Day ");
            push_i64_dec(&mut t, a);
            push_str(&mut t, " → Day ");
            push_i64_dec(&mut t, b);
            assert(t@ =~= span_text(*w));
            t
        },
        _ => "—".to_owned(),
    };
    let mut streak = decimal(w.longest_streak);
    push_str(&mut streak, " days");
    let mut fields: Vec<(String, String)> = Vec::new();
    fields.push(("Posts this year".to_owned(), decimal(w.posts_in_year)));
    fields.push(("Longest streak".to_owned(), streak));
    fields.push(("Busiest month".to_owned(), busiest));
    fields.push(("Range".to_owned(), span));
    fields.push(("All-time total".to_owned(), decimal(w.total_all_time)));
    assert(fields@.map_values(|f: (String, String)| (f.0@, f.1@)) =~= recap_fields(*w));
    RecapText { title, description: None, fields }
}

/// Whether `name` contains the typed fragment, ignoring ASCII case.
pub open spec fn offers(name: Seq<char>, fragment: Seq<char>) -> bool {
    let n = crate::text::lower_seq(name);
    let f = crate::text::lower_seq(fragment);
    crate::text::find_from(n, f, 0) + f.len() <= n.len()
}

/// The first `limit` of the first `n` names that contain the fragment.
pub open spec fn offered(names: Seq<Seq<char>>, fragment: Seq<char>, n: int, limit: int) -> Seq<Seq<char>>
    decreases n,
{
    if n <= 0 {
        Seq::empty()
    } else {
        let prev = offered(names, fragment, n - 1, limit);
        if prev.len() < limit && offers(names[n - 1], fragment) {
            prev.push(names[n - 1])
        } else {
            prev
        }
    }
}

/// The texts of a list of strings.
pub open spec fn texts(v: Seq<String>) -> Seq<Seq<char>> {
    v.map_values(|x: String| x@)
}

/// Autocomplete: the first 25 names containing the typed fragment,
/// ignoring ASCII case, in the given order.
pub fn matching_names(names: &Vec<String>, partial: &str) -> (r: Vec<String>)
    ensures
        texts(r@) == offered(texts(names@), partial@, names.len() as int, 25),
{
    let needle = crate::text::lower_chars(chars_of(partial).as_slice());
    let mut out: Vec<String> = Vec::new();
    let mut i: usize = 0;
    while i < names.len()
        invariant
            i <= names.len(),
            needle@ == crate::text::lower_seq(partial@),
            texts(out@) == offered(texts(names@), partial@, i as int, 25),
            out@.len() <= 25,
        decreases names.len() - i,
    {
        proof {
            lemma_offered_len(texts(names@), partial@, i as int, 25);
        }
        if out.len() < 25 {
            let hay = crate::text::lower_chars(chars_of(names[i].as_str()).as_slice());
            let at = crate::text::find_chars(hay.as_slice(), needle.as_slice(), 0);
            if needle.len() <= hay.len() - at {
                out.push(names[i].clone());
            }
        }
        i = i + 1;
        assert(texts(out@) =~= offered(texts(names@), partial@, i as int, 25));
    }
    out
}

proof fn lemma_offered_members(names: Seq<Seq<char>>, fragment: Seq<char>, n: int, limit: int)
    ensures
        forall|k: int|
            0 <= k < offered(names, fragment, n, limit).len() ==> {
                let o = #[trigger] offered(names, fragment, n, limit)[k];
                &&& offers(o, fragment)
                &&& exists|i: int| 0 <= i < n && names[i] == o
            },
    decreases n,
{
    if n > 0 {
        lemma_offered_members(names, fragment, n - 1, limit);
        let prev = offered(names, fragment, n - 1, limit);
        let cur = offered(names, fragment, n, limit);
        assert forall|k: int| 0 <= k < cur.len() implies {
            let o = #[trigger] cur[k];
            &&& offers(o, fragment)
            &&& exists|i: int| 0 <= i < n && names[i] == o
        } by {
            if k < prev.len() {
                assert(cur[k] == prev[k]);
                let o = prev[k];
                let i = choose|i: int| 0 <= i < n - 1 && names[i] == o;
                assert(names[i] == cur[k]);
            } else {
                assert(cur[k] == names[n - 1]);
            }
        }
    }
}

proof fn lemma_offered_complete(names: Seq<Seq<char>>, fragment: Seq<char>, n: int, limit: int)
    requires
        offered(names, fragment, n, limit).len() < limit,
    ensures
        forall|i: int| 0 <= i < n && offers(#[trigger] names[i], fragment) ==> exists|k: int|
            0 <= k < offered(names, fragment, n, limit).len() && offered(names, fragment, n, limit)[k] == names[i],
    decreases n,
{
    if n > 0 {
        let prev = offered(names, fragment, n - 1, limit);
        let cur = offered(names, fragment, n, limit);
        assert(prev.len() <= cur.len());
        lemma_offered_complete(names, fragment, n - 1, limit);
        assert forall|i: int| 0 <= i < n && offers(#[trigger] names[i], fragment) implies exists|k: int|
            0 <= k < cur.len() && cur[k] == names[i] by {
            if i < n - 1 {
                let k = choose|k: int| 0 <= k < prev.len() && prev[k] == names[i];
                assert(cur[k] == prev[k]);
            } else {
                assert(cur[cur.len() - 1] == names[i]);
            }
        }
    }
}

/// Every zone name chrono-tz lists, in `chrono_tz::TZ_VARIANTS` order.
pub open spec fn zone_names() -> Seq<Seq<char>> {
    Seq::new(597, |i: int| crate::clock::tz_variant_name(i))
}

/// Autocomplete for `/settings timezone`: the first 25 zone names, in
/// chrono-tz's `TZ_VARIANTS` order, that contain the typed fragment,
/// ignoring ASCII case. Each is a zone chrono-tz knows, and when fewer
/// than 25 come back, they are all the known names that contain it.
pub fn tz_suggestions(partial: &str) -> (r: Vec<String>)
    ensures
        texts(r@) == offered(zone_names(), partial@, 597, 25),
        r@.len() <= 25,
        forall|k: int| 0 <= k < r@.len() ==> offers(#[trigger] r@[k]@, partial@) && crate::clock::tz_is_known(r@[k]@),
        r@.len() < 25 ==> forall|name: Seq<char>| crate::clock::tz_is_known(name) && #[trigger] offers(name, partial@)
            ==> exists|k: int| 0 <= k < r@.len() && r@[k]@ == name,
{
    let names = crate::clock::iana_zone_names();
    let r = matching_names(&names, partial);
    proof {
        let tn = texts(names@);
        assert(tn =~= zone_names());
        lemma_offered_len(tn, partial@, names.len() as int, 25);
        lemma_offered_members(tn, partial@, names.len() as int, 25);
        let off = offered(tn, partial@, names.len() as int, 25);
        assert(r@.len() == off.len());
        assert forall|k: int| 0 <= k < r@.len() implies offers(#[trigger] r@[k]@, partial@) && crate::clock::tz_is_known(r@[k]@) by {
            let o = off[k];
            assert(texts(r@)[k] == r@[k]@);
            let i = choose|i: int| 0 <= i < names.len() && tn[i] == o;
            assert(tn[i] == names@[i]@);
            assert(crate::clock::tz_is_known(names@[i]@));
        }
        if r@.len() < 25 {
            lemma_offered_complete(tn, partial@, names.len() as int, 25);
            assert forall|name: Seq<char>| crate::clock::tz_is_known(name) && #[trigger] offers(name, partial@)
                implies exists|k: int| 0 <= k < r@.len() && r@[k]@ == name by {
                let i = choose|i: int| 0 <= i < names@.len() && names@[i]@ == name;
                assert(tn[i] == name);
                assert(offers(tn[i], partial@));
                let k = choose|k: int| 0 <= k < off.len() && off[k] == tn[i];
                assert(texts(r@)[k] == r@[k]@);
            }
        }
    }
    r
}

proof fn lemma_offered_len(names: Seq<Seq<char>>, fragment: Seq<char>, n: int, limit: int)
    requires
        0 <= limit,
    ensures
        offered(names, fragment, n, limit).len() <= limit,
    decreases n,
{
    if n > 0 {
        lemma_offered_len(names, fragment, n - 1, limit);
    }
}

} // verus!
