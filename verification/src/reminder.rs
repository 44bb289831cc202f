//! Reminder logic: is a series behind schedule, and is a reminder due
//! right now?
//!
//! The bot runs a coarse tick and asks this predicate. Because the
//! condition is state-based — behind, past the reminder time, not yet
//! reminded for this missing day — at-most-once delivery and downtime
//! catch-up need no cron bookkeeping.

use vstd::prelude::*;

use crate::clock::{LocalTime, hh_mm_seconds, local_time, local_time_in, parse_hh_mm, tz_is_known, tz_known};
use crate::domain::Cadence;

verus! {

/// A reminder-enabled series joined with its post aggregates and resolved
/// timezone, as the repository produces it.
#[derive(Debug, Clone)]
pub struct ReminderCandidate {
    /// Series id.
    pub series_id: i64,
    /// Guild snowflake (for the message destination / logging).
    pub guild_id: String,
    /// Series name.
    pub name: String,
    /// Creator snowflake (DM target and `{creator}` substitution).
    pub creator_id: String,
    /// Watched channels; a channel reminder pings the first.
    pub channels: Vec<String>,
    /// Posting cadence.
    pub cadence: Cadence,
    /// Reminder time of day, `HH:MM`.
    pub reminder_time: String,
    /// Resolved timezone: series override, else guild default.
    pub timezone: String,
    /// Remind via DM (true) or channel ping (false).
    pub reminder_dm: bool,
    /// First day number (so an empty series is recognised).
    pub start_day: i64,
    /// Highest archived day, if any.
    pub max_day: Option<i64>,
    /// `posted_at` of the newest post, if any.
    pub last_post_at: Option<i64>,
    /// Last day a reminder was sent for.
    pub last_reminder_day: Option<i64>,
}

/// Everything the predicate needs about one series at one instant.
#[derive(Debug, Clone)]
pub struct ReminderInputs<'a> {
    /// Posting cadence ([`Cadence::Freeform`] never reminds).
    pub cadence: Cadence,
    /// Reminder time of day, `HH:MM` (series-local).
    pub reminder_time: &'a str,
    /// IANA timezone (series override, else guild default).
    pub timezone: &'a str,
    /// `posted_at` of the newest archived post; `None` = empty series.
    pub last_post_at: Option<i64>,
    /// The day a reminder would name (`max_day + 1`).
    pub expected_day: i64,
    /// Last day number a reminder was sent for, if any.
    pub last_reminder_day: Option<i64>,
    /// Now, unix seconds.
    pub now_unix: i64,
}

/// The day a reminder names: one past the highest archived day, or the
/// start day for an empty series.
pub open spec fn expected_day_spec(c: ReminderCandidate) -> i64 {
    match c.max_day {
        Some(d) => (d + 1) as i64,
        None => c.start_day,
    }
}

impl ReminderCandidate {
    /// The day a reminder would name (`max_day + 1`, else `start_day`).
    pub fn expected_day(&self) -> (r: i64)
        requires
            self.max_day matches Some(d) ==> d < i64::MAX,
        ensures
            r == expected_day_spec(*self),
    {
        match self.max_day {
            Some(d) => d + 1,
            None => self.start_day,
        }
    }

    /// Borrows the candidate as predicate inputs for `now_unix`.
    pub fn inputs(&self, now_unix: i64) -> (r: ReminderInputs<'_>)
        requires
            self.max_day matches Some(d) ==> d < i64::MAX,
        ensures
            r.cadence == self.cadence,
            r.reminder_time@ == self.reminder_time@,
            r.timezone@ == self.timezone@,
            r.last_post_at == self.last_post_at,
            r.expected_day == expected_day_spec(*self),
            r.last_reminder_day == self.last_reminder_day,
            r.now_unix == now_unix,
    {
        ReminderInputs {
            cadence: self.cadence,
            reminder_time: self.reminder_time.as_str(),
            timezone: self.timezone.as_str(),
            last_post_at: self.last_post_at,
            expected_day: self.expected_day(),
            last_reminder_day: self.last_reminder_day,
            now_unix,
        }
    }
}

/// Cadence-aware "has the series missed its rhythm as of `now`?": daily
/// means an earlier local date; weekdays the same but never on Saturday or
/// Sunday; weekly an earlier ISO week; freeform never.
pub open spec fn behind_spec(cadence: Cadence, last: LocalTime, now: LocalTime) -> bool {
    match cadence {
        Cadence::Freeform => false,
        Cadence::Daily => last.day_number < now.day_number,
        Cadence::Weekdays => !(now.weekday == 5 || now.weekday == 6) && last.day_number
            < now.day_number,
        Cadence::Weekly => last.iso_year < now.iso_year || (last.iso_year == now.iso_year
            && last.iso_week < now.iso_week),
    }
}

/// The reminder rule over the local calendar readings: an empty series
/// never reminds; a day already reminded about is not reminded again; an
/// unreadable clock or time disables; before the reminder time nothing is
/// due; otherwise the cadence decides.
pub open spec fn due_given(
    i: ReminderInputs,
    now_local: Option<LocalTime>,
    at: Option<u32>,
    last_local: Option<LocalTime>,
) -> bool {
    if i.last_post_at is None {
        false
    } else if i.last_reminder_day == Some(i.expected_day) {
        false
    } else {
        match (now_local, at, last_local) {
            (Some(now), Some(a), Some(last)) => now.seconds >= a && behind_spec(i.cadence, last, now),
            _ => false,
        }
    }
}

/// The zone the rule reads the calendar in: the given one when chrono-tz
/// knows it, else UTC.
pub open spec fn effective_tz(name: Seq<char>) -> Seq<char> {
    if tz_is_known(name) {
        name
    } else {
        "UTC"@
    }
}

/// The rule applied to an instant: both instants read in the effective
/// zone, and the reminder time as chrono parses it.
pub open spec fn reminder_due_spec(i: ReminderInputs) -> bool {
    let tz = effective_tz(i.timezone@);
    due_given(
        i,
        local_time_in(tz, i.now_unix),
        hh_mm_seconds(i.reminder_time@),
        match i.last_post_at {
            Some(l) => local_time_in(tz, l),
            None => None,
        },
    )
}

fn behind(cadence: Cadence, last: LocalTime, now: LocalTime) -> (r: bool)
    ensures
        r == behind_spec(cadence, last, now),
{
    match cadence {
        Cadence::Freeform => false,
        Cadence::Daily => last.day_number < now.day_number,
        Cadence::Weekdays => !(now.weekday == 5 || now.weekday == 6) && last.day_number
            < now.day_number,
        Cadence::Weekly => last.iso_year < now.iso_year || (last.iso_year == now.iso_year
            && last.iso_week < now.iso_week),
    }
}

/// The reminder rule given the local readings of now, of the reminder
/// time, and of the newest post.
pub fn reminder_due_from(
    i: &ReminderInputs<'_>,
    now_local: Option<LocalTime>,
    at: Option<u32>,
    last_local: Option<LocalTime>,
) -> (r: bool)
    ensures
        r == due_given(*i, now_local, at, last_local),
{
    if i.last_post_at.is_none() {
        return false;
    }
    if i.last_reminder_day == Some(i.expected_day) {
        return false;
    }
    match (now_local, at, last_local) {
        (Some(now), Some(a), Some(last)) => now.seconds >= a && behind(i.cadence, last, now),
        _ => false,
    }
}

/// True when a reminder should be sent right now.
pub fn reminder_due(i: &ReminderInputs<'_>) -> (r: bool)
    ensures
        r == reminder_due_spec(*i),
{
    let tz = if tz_known(i.timezone) {
        i.timezone
    } else {
        "UTC"
    };
    let now_local = local_time(tz, i.now_unix);
    let at = parse_hh_mm(i.reminder_time);
    let last_local = match i.last_post_at {
        Some(l) => local_time(tz, l),
        None => None,
    };
    reminder_due_from(i, now_local, at, last_local)
}

/// Reminder laws: an empty series never reminds; a day already reminded
/// about is never reminded again (at most once per missing day); a
/// freeform series never reminds; nothing is due before the reminder time.
pub proof fn lemma_reminder_laws(
    i: ReminderInputs,
    now_local: Option<LocalTime>,
    at: Option<u32>,
    last_local: Option<LocalTime>,
)
    ensures
        i.last_post_at is None ==> !due_given(i, now_local, at, last_local),
        i.last_reminder_day == Some(i.expected_day) ==> !due_given(i, now_local, at, last_local),
        i.cadence == Cadence::Freeform ==> !due_given(i, now_local, at, last_local),
        (now_local matches Some(n) && at matches Some(a) && n.seconds < a) ==> !due_given(
            i,
            now_local,
            at,
            last_local,
        ),
{
}


/// What each cadence asks for, once a post exists, the day has not been
/// reminded about, both instants read and the reminder time has come:
/// a post today (or later) means nothing is due; a daily series is due
/// once a calendar day passes without a post; a weekday series is never
/// due on Saturday or Sunday and is due on a weekday with no post yet
/// that day; a weekly series is due in a week with no post.
pub proof fn lemma_cadence_laws(
    i: ReminderInputs,
    now: LocalTime,
    a: u32,
    last: LocalTime,
)
    ensures
        ({
            let d = due_given(i, Some(now), Some(a), Some(last));
            let ready = i.last_post_at is Some && i.last_reminder_day != Some(i.expected_day)
                && now.seconds >= a;
            &&& i.cadence == Cadence::Weekdays && (now.weekday == 5 || now.weekday == 6) ==> !d
            &&& (i.cadence == Cadence::Daily || i.cadence == Cadence::Weekdays) && last.day_number
                >= now.day_number ==> !d
            &&& ready && i.cadence == Cadence::Daily && last.day_number < now.day_number ==> d
            &&& ready && i.cadence == Cadence::Weekdays && now.weekday < 5 && last.day_number
                < now.day_number ==> d
            &&& i.cadence == Cadence::Weekly && last.iso_year == now.iso_year && last.iso_week
                == now.iso_week ==> !d
            &&& ready && i.cadence == Cadence::Weekly && (last.iso_year < now.iso_year || (
            last.iso_year == now.iso_year && last.iso_week < now.iso_week)) ==> d
        }),
{
}

/// A weekday series is never reminded on a Saturday or Sunday of its
/// timezone.
pub proof fn lemma_no_weekend_reminders(i: ReminderInputs)
    requires
        i.cadence == Cadence::Weekdays,
        local_time_in(effective_tz(i.timezone@), i.now_unix) matches Some(n) && (n.weekday == 5
            || n.weekday == 6),
    ensures
        !reminder_due_spec(i),
{
}

} // verus!
