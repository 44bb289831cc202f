//! Milestone logic: which archived days are worth celebrating, and how the
//! announcement reads.

use vstd::prelude::*;

use crate::text::{chars_of, i64_to_string, int_dec, push_i64_dec, push_str, replace_all, replace_chars, string_of, trim, trim_chars};

verus! {

/// Why a day is a milestone (its celebratory label).
#[derive(Debug, Clone, Copy, PartialEq, Eq, Structural)]
pub enum Milestone {
    /// The very first archived day.
    First,
    /// A whole number of years (every 365 days).
    Years(i64),
    /// A round hundred.
    Hundred(i64),
}

/// Classification, most significant first: day 1, then year marks, then
/// round hundreds; non-positive and ordinary days are not milestones.
pub open spec fn classify_spec(day: i64) -> Option<Milestone> {
    if day <= 0 {
        None
    } else if day == 1 {
        Some(Milestone::First)
    } else if day % 365 == 0 {
        Some(Milestone::Years((day / 365) as i64))
    } else if day % 100 == 0 {
        Some(Milestone::Hundred(day))
    } else {
        None
    }
}

impl Milestone {
    /// The short human label.
    pub open spec fn label_spec(self) -> Seq<char> {
        match self {
            Milestone::First => "the first post"@,
            Milestone::Years(n) => if n == 1 {
                "1 year"@
            } else {
                int_dec(n as int) + " years"@
            },
            Milestone::Hundred(d) => "day "@ + int_dec(d as int),
        }
    }

    /// Short human label, e.g. "1 year" or "day 500".
    pub fn label(self) -> (r: String)
        ensures
            r@ == self.label_spec(),
    {
        match self {
            Milestone::First => "the first post".to_owned(),
            Milestone::Years(n) => {
                if n == 1 {
                    "1 year".to_owned()
                } else {
                    let mut s = i64_to_string(n);
                    push_str(&mut s, " years");
                    s
                }
            },
            Milestone::Hundred(d) => {
                let mut s = "day ".to_owned();
                push_i64_dec(&mut s, d);
                s
            },
        }
    }
}

/// Classifies `day`, most significant first: day 1, then year marks, then
/// round hundreds. Returns `None` for ordinary days. `day` is the number
/// just archived; non-positive days never qualify.
pub fn classify(day: i64) -> (r: Option<Milestone>)
    ensures
        r == classify_spec(day),
{
    if day <= 0 {
        return None;
    }
    if day == 1 {
        return Some(Milestone::First);
    }
    if day % 365 == 0 {
        return Some(Milestone::Years(day / 365));
    }
    if day % 100 == 0 {
        return Some(Milestone::Hundred(day));
    }
    None
}

/// Whether a template counts as present (not blank after trimming).
pub open spec fn template_used(template: Option<Seq<char>>) -> bool {
    match template {
        Some(t) => trim(t).len() > 0,
        None => false,
    }
}

/// The announcement text: the creator template with `{day}`, `{name}`,
/// `{creator}` and `{milestone}` substituted in that order, or the default
/// line when the template is absent or blank.
pub open spec fn render_spec(
    template: Option<Seq<char>>,
    milestone: Milestone,
    day: i64,
    name: Seq<char>,
    creator_mention: Seq<char>,
) -> Seq<char> {
    if template_used(template) {
        let t = template->0;
        replace_all(
            replace_all(
                replace_all(replace_all(t, "{day}"@, int_dec(day as int)), "{name}"@, name),
                "{creator}"@,
                creator_mention,
            ),
            "{milestone}"@,
            milestone.label_spec(),
        )
    } else {
        "🎉 **"@ + name + "** reached "@ + milestone.label_spec() + " — Day "@ + int_dec(day as int)
            + ", archived by "@ + creator_mention + ". 🍃"@
    }
}

/// The text view of an optional string slice.
pub open spec fn opt_str_view(o: Option<&str>) -> Option<Seq<char>> {
    match o {
        Some(s) => Some(s@),
        None => None,
    }
}

/// Renders the announcement. A creator template may use `{day}`, `{name}`,
/// `{creator}`, and `{milestone}`; absent a template, a default is used.
/// `creator_mention` should already be a `<@id>` mention.
pub fn render(
    template: Option<&str>,
    milestone: Milestone,
    day: i64,
    name: &str,
    creator_mention: &str,
) -> (r: String)
    ensures
        r@ == render_spec(opt_str_view(template), milestone, day, name@, creator_mention@),
{
    proof {
        reveal_strlit("{day}");
        reveal_strlit("{name}");
        reveal_strlit("{creator}");
        reveal_strlit("{milestone}");
    }
    let label = milestone.label();
    if let Some(t) = template {
        let tv = chars_of(t);
        let trimmed = trim_chars(&tv);
        if trimmed.len() > 0 {
            let day_text = chars_of(i64_to_string(day).as_str());
            let a = replace_chars(&tv, &chars_of("{day}"), &day_text);
            let b = replace_chars(&a, &chars_of("{name}"), &chars_of(name));
            let c = replace_chars(&b, &chars_of("{creator}"), &chars_of(creator_mention));
            let d = replace_chars(&c, &chars_of("{milestone}"), &chars_of(label.as_str()));
            return string_of(&d);
        }
    }
    let mut s = "🎉 **".to_owned();
    push_str(&mut s, name);
    push_str(&mut s, "** reached ");
    push_str(&mut s, label.as_str());
    push_str(&mut s, " — Day ");
    push_i64_dec(&mut s, day);
    push_str(&mut s, ", archived by ");
    push_str(&mut s, creator_mention);
    push_str(&mut s, ". 🍃");
    s
}


/// Which days are milestones: day 1; every whole number of years (each
/// positive multiple of 365) as that many years; every other positive
/// multiple of 100 as itself; no other day.
pub proof fn lemma_milestone_days(day: i64)
    ensures
        day == 1 ==> classify_spec(day) == Some(Milestone::First),
        day > 0 && day % 365 == 0 ==> classify_spec(day) == Some(Milestone::Years((day / 365) as i64)),
        day > 1 && day % 365 != 0 && day % 100 == 0 ==> classify_spec(day) == Some(
            Milestone::Hundred(day),
        ),
        day <= 0 || (day > 1 && day % 365 != 0 && day % 100 != 0) ==> classify_spec(day) is None,
        classify_spec(day) matches Some(Milestone::Hundred(d)) ==> d == day && day % 100 == 0,
        classify_spec(day) matches Some(Milestone::Years(n)) ==> n >= 1 && n * 365 == day,
{
}

} // verus!
