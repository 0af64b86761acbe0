//! The sticker chart's helpers: the mark of a sticker, today's date, the date
//! as the chart shows it, and the day before or after a date.
use vstd::prelude::*;
use crate::clock::{is_day_text, today};
use crate::db::{t119, t122, DbError};
use crate::report::mark_of;
use crate::text::{chars_of, parse_i32, parsed_i32, str_eq, string_views, trim_text, trimmed};
use vstd::string::*;

verus! {

/// The format of a date as the store keeps it: year, month and day.
pub open spec fn iso_format() -> Seq<char> {
    "%Y-%m-%d"@
}

/// The format of a date as the chart shows it: weekday, month and day.
pub open spec fn short_format() -> Seq<char> {
    "%a, %b %d"@
}

/// The day that `chrono::NaiveDate::parse_from_str(text, fmt)` reads from
/// `text`, as chrono's `Datelike::num_days_from_ce` counts it (1 January of
/// the year 1 is day 1); `None` where chrono refuses the text.
pub uninterp spec fn parsed_day(text: Seq<char>, fmt: Seq<char>) -> Option<i32>;

/// The text that chrono writes for day number `day` with the format `fmt`;
/// `None` where `NaiveDate::from_num_days_from_ce_opt` has no date for `day`.
pub uninterp spec fn day_text(day: i32, fmt: Seq<char>) -> Option<Seq<char>>;

/// `chrono::NaiveDate::parse_from_str(text, fmt)`, the date it reads given
/// by its day number (`Datelike::num_days_from_ce`). Claimed: the result is
/// what `parsed_day` names for these arguments.
#[verifier::external_body]
fn parse_day(text: &str, fmt: &str) -> (r: Option<i32>)
    ensures
        r == parsed_day(text@, fmt@),
{
    match chrono::NaiveDate::parse_from_str(text, fmt) {
        Ok(d) => Some(chrono::Datelike::num_days_from_ce(&d)),
        Err(_) => None,
    }
}

/// `chrono::NaiveDate::from_num_days_from_ce_opt(day)`, written with
/// `format(fmt)`. Claimed: the text is what `day_text` names for these
/// arguments, and there is none exactly where `day_text` names none. Only
/// the two formats of this module are admitted: chrono's `to_string` panics
/// on a format it cannot write.
#[verifier::external_body]
fn format_day(day: i32, fmt: &str) -> (r: Option<String>)
    requires
        fmt@ == iso_format() || fmt@ == short_format(),
    ensures
        day_text(day, fmt@) == (match r {
            Some(t) => Some(t@),
            None => None::<Seq<char>>,
        }),
{
    match chrono::NaiveDate::from_num_days_from_ce_opt(day) {
        Some(d) => Some(d.format(fmt).to_string()),
        None => None,
    }
}

/// The mark of a sticker value on the chart: ○, ● or ●●.
pub fn sticker_str(v: t119) -> (r: &'static str)
    ensures
        r@ == mark_of(v),
{
    match v {
        t119::Zero => "○",
        t119::One => "●",
        t119::Two => "●●",
    }
}

/// Today's date on the local clock, written year-month-day. Which day it is
/// depends on the time and the time zone; it is some day of the calendar.
pub fn today_str() -> (r: String)
    ensures
        is_day_text(r@),
{
    today()
}

/// Where `date` reads as a day, whether the day `days` later (earlier, for a
/// negative `days`) is a day chrono has a date for.
pub open spec fn shift_lands(date: Seq<char>, days: i64) -> bool {
    match parsed_day(date, iso_format()) {
        Some(n) => i32::MIN <= n + days <= i32::MAX && day_text((n + days) as i32, iso_format()) is Some,
        None => true,
    }
}

/// The date `days` days after `date`, written year-month-day; `date` itself
/// where it does not read as a date.
pub open spec fn shifted(date: Seq<char>, days: i64) -> Seq<char> {
    match parsed_day(date, iso_format()) {
        Some(n) => match day_text((n + days) as i32, iso_format()) {
            Some(t) => t,
            None => date,
        },
        None => date,
    }
}

/// The date `days` days after `date` (before it, for a negative `days`);
/// `date` unchanged where it is not a year-month-day date.
pub fn shift_date(date: &str, days: i64) -> (r: String)
    requires
        shift_lands(date@, days),
    ensures
        r@ == shifted(date@, days),
{
    match parse_day(date, "%Y-%m-%d") {
        Some(n) => {
            let m = n as i64 + days;
            match format_day(m as i32, "%Y-%m-%d") {
                Some(t) => t,
                None => date.to_owned(),
            }
        },
        None => date.to_owned(),
    }
}

/// `shift_date` where the shifted day has a date: `None` where `date` is a
/// date and the day `days` away from it is past the calendar's ends.
pub fn try_shift_date(date: &str, days: i64) -> (r: Option<String>)
    ensures
        r is Some <==> shift_lands(date@, days),
        r matches Some(t) ==> t@ == shifted(date@, days),
{
    match parse_day(date, "%Y-%m-%d") {
        Some(n) => {
            let low = i32::MIN as i64 - n as i64;
            let high = i32::MAX as i64 - n as i64;
            if days < low || days > high {
                return None;
            }
            let m = n as i64 + days;
            match format_day(m as i32, "%Y-%m-%d") {
                Some(_) => Some(shift_date(date, days)),
                None => None,
            }
        },
        None => Some(shift_date(date, days)),
    }
}

/// How the chart shows a date other than today: weekday, month and day
/// where it reads as a date, else the text as it is.
pub open spec fn other_day_display(date: Seq<char>) -> Seq<char> {
    match parsed_day(date, iso_format()) {
        Some(n) => match day_text(n, short_format()) {
            Some(t) => t,
            None => date,
        },
        None => date,
    }
}

/// How the chart shows `date` when today is `today`: "Today" for today,
/// else as `other_day_display` gives it.
pub open spec fn date_display_of(date: Seq<char>, today: Seq<char>) -> Seq<char> {
    if date == today {
        "Today"@
    } else {
        other_day_display(date)
    }
}

/// How the chart shows `date` when today is `today`.
pub fn date_display(date: &str, today: &str) -> (r: String)
    ensures
        r@ == date_display_of(date@, today@),
{
    if str_eq(date, today) {
        return String::from_str("Today");
    }
    match parse_day(date, "%Y-%m-%d") {
        Some(n) => match format_day(n, "%a, %b %d") {
            Some(t) => t,
            None => date.to_owned(),
        },
        None => date.to_owned(),
    }
}

/// How the chart shows `date`: "Today" when it is today's date on the local
/// clock, else weekday, month and day (or the text itself where it is not a
/// date).
pub fn format_date_display(date: &str) -> (r: String)
    ensures
        exists|today: Seq<char>| is_day_text(today) && r@ == #[trigger] date_display_of(date@, today),
{
    let now = today_str();
    date_display(date, &now)
}

/// Tags joined with ", " between each two.
pub open spec fn join_tags(tags: Seq<Seq<char>>) -> Seq<char>
    decreases tags.len(),
{
    if tags.len() == 0 {
        Seq::empty()
    } else if tags.len() == 1 {
        tags[0]
    } else {
        join_tags(tags.drop_last()) + ", "@ + tags.last()
    }
}

/// The status line once an observation is saved: the block, the mark of its
/// sticker and "saved!", then what was heard in quotes unless it is empty or
/// the placeholder "Processed", then the tags in brackets unless there are
/// none.
pub open spec fn saved_text(block: Seq<char>, value: t119, heard: Seq<char>, tags: Seq<Seq<char>>) -> Seq<char> {
    block + ": "@ + mark_of(value) + " saved!"@ + (if heard.len() == 0 || heard == "Processed"@ {
        Seq::empty()
    } else {
        " — \""@ + heard + "\""@
    }) + (if tags.len() == 0 {
        Seq::empty()
    } else {
        " ["@ + join_tags(tags) + "]"@
    })
}

/// The status line after a sticker of `value` is saved for the block named
/// `block`, with the words `heard` and the `tags` of the observation.
pub fn saved_status(block: &str, value: t119, heard: &str, tags: &Vec<String>) -> (r: String)
    ensures
        r@ == saved_text(block@, value, heard@, string_views(tags@)),
{
    let ghost views = string_views(tags@);
    let ghost heard_part: Seq<char> = if heard@.len() == 0 || heard@ == "Processed"@ {
        Seq::empty()
    } else {
        " — \""@ + heard@ + "\""@
    };
    let ghost tags_part: Seq<char> = if views.len() == 0 {
        Seq::empty()
    } else {
        " ["@ + join_tags(views) + "]"@
    };
    let mut s = String::from_str(block);
    s.append(": ");
    s.append(sticker_str(value));
    s.append(" saved!");
    let ghost base = s@;
    assert(base =~= block@ + ": "@ + mark_of(value) + " saved!"@);
    if !heard.is_empty() && !str_eq(heard, "Processed") {
        s.append(" — \"");
        s.append(heard);
        s.append("\"");
    }
    assert(s@ =~= base + heard_part);
    let ghost with_heard = s@;
    if tags.len() != 0 {
        s.append(" [");
        let ghost head = s@;
        let mut i: usize = 0;
        while i < tags.len()
            invariant
                0 < tags@.len(),
                0 <= i <= tags@.len(),
                views == string_views(tags@),
                s@ == head + join_tags(views.take(i as int)),
            decreases tags@.len() - i,
        {
            let ghost taken = views.take(i + 1);
            assert(taken.drop_last() =~= views.take(i as int));
            if i > 0 {
                s.append(", ");
            } else {
                assert(views.take(0) =~= Seq::<Seq<char>>::empty());
            }
            s.append(tags[i].as_str());
            assert(s@ =~= head + join_tags(taken));
            i += 1;
        }
        assert(views.take(i as int) =~= views);
        s.append("]");
    }
    assert(s@ =~= with_heard + tags_part);
    s
}

/// `a` comes before `b` in the order of their characters' code points, a
/// proper prefix before what extends it. This is the order `<` gives two
/// strings, whose UTF-8 bytes compare as their code points do.
pub open spec fn text_less(a: Seq<char>, b: Seq<char>) -> bool
    decreases a.len(),
{
    if b.len() == 0 {
        false
    } else if a.len() == 0 {
        true
    } else if a[0] != b[0] {
        (a[0] as u32) < (b[0] as u32)
    } else {
        text_less(a.drop_first(), b.drop_first())
    }
}

/// The chart can step forward from `view_date` only while it shows a day
/// before `today`.
pub fn can_go_forward(view_date: &str, today: &str) -> (r: bool)
    ensures
        r == text_less(view_date@, today@),
{
    let x = chars_of(view_date);
    let y = chars_of(today);
    assert(x@.skip(0) =~= x@);
    assert(y@.skip(0) =~= y@);
    let mut i: usize = 0;
    while i < x.len() && i < y.len()
        invariant
            x@ == view_date@,
            y@ == today@,
            0 <= i <= x@.len(),
            i <= y@.len(),
            text_less(x@, y@) == text_less(x@.skip(i as int), y@.skip(i as int)),
        decreases x@.len() - i,
    {
        let c = x[i];
        let d = y[i];
        if c != d {
            assert(x@.skip(i as int)[0] == c && y@.skip(i as int)[0] == d);
            return (c as u32) < (d as u32);
        }
        assert(x@.skip(i as int).drop_first() =~= x@.skip(i + 1));
        assert(y@.skip(i as int).drop_first() =~= y@.skip(i + 1));
        i += 1;
    }
    i < y.len()
}

/// Only today's chart takes scores: a past day is shown read-only, with no
/// block to select, no score buttons and no dictation.
pub fn is_editable_day(view_date: &str, today: &str) -> (r: bool)
    ensures
        r == (view_date@ == today@),
{
    str_eq(view_date, today)
}

/// Undo is offered on today's chart only, and only while a dictated sticker
/// is remembered.
pub fn shows_undo(view_date: &str, today: &str, last: &Option<(i64, String)>) -> (r: bool)
    ensures
        r == (view_date@ == today@ && last is Some),
{
    str_eq(view_date, today) && last.is_some()
}

/// The student's name as typed: the text without surrounding white space,
/// refused (`None`) where nothing is left.
pub fn student_name(raw: &str) -> (r: Option<String>)
    ensures
        match r {
            Some(n) => n@ == trimmed(raw@) && trimmed(raw@).len() > 0,
            None => trimmed(raw@).len() == 0,
        },
{
    let name = trim_text(raw);
    if name.as_str().is_empty() {
        None
    } else {
        Some(name)
    }
}

/// The daily goal as typed: the integer the text writes, at least 1; 15
/// where the text is not an integer.
pub open spec fn goal_of_input(raw: Seq<char>) -> i32 {
    match parsed_i32(raw) {
        Some(g) => if g < 1 {
            1
        } else {
            g
        },
        None => 15,
    }
}

/// The daily goal as typed, as the settings and first-run screens read it.
pub fn goal_from_input(raw: &str) -> (r: i32)
    ensures
        r == goal_of_input(raw@),
{
    match parse_i32(raw) {
        Some(g) => if g < 1 {
            1
        } else {
            g
        },
        None => 15,
    }
}

/// t126: which screen the chart shows.
#[derive(Debug, Clone, Copy, PartialEq, Eq, Structural)]
pub enum t126 {
    Onboarding,
    Main,
    Settings,
}

/// The screen to show once the student has been looked up: first-run setup
/// where there is no student yet; the chart otherwise, also where the lookup
/// failed (the error then goes to the status line).
pub fn view_after_load(student: &Result<Option<t122>, DbError>) -> (r: t126)
    ensures
        r == (match student {
            Ok(None) => t126::Onboarding,
            _ => t126::Main,
        }),
{
    match student {
        Ok(None) => t126::Onboarding,
        _ => t126::Main,
    }
}

/// A block's score buttons show only on the selected block of today's chart.
pub fn shows_score_buttons(is_selected: bool, is_today: bool) -> (r: bool)
    ensures
        r == (is_selected && is_today),
{
    is_selected && is_today
}

/// The status line of the chart, first that applies: the last error, the
/// share message, "Loading schedule..." while there are no blocks and no
/// dictation runs, the current status.
pub open spec fn status_text(
    last_error: Option<Seq<char>>,
    share: Option<Seq<char>>,
    no_blocks: bool,
    processing: bool,
    status: Seq<char>,
) -> Seq<char> {
    match last_error {
        Some(e) => e,
        None => match share {
            Some(m) => m,
            None => if no_blocks && !processing {
                "Loading schedule..."@
            } else {
                status
            },
        },
    }
}

/// The view of an optional string.
pub open spec fn opt_text(o: Option<String>) -> Option<Seq<char>> {
    match o {
        Some(t) => Some(t@),
        None => None,
    }
}

/// The status line of the chart.
pub fn status_line(
    last_error: &Option<String>,
    share: &Option<String>,
    no_blocks: bool,
    processing: bool,
    status: &str,
) -> (r: String)
    ensures
        r@ == status_text(opt_text(*last_error), opt_text(*share), no_blocks, processing, status@),
{
    match last_error {
        Some(e) => e.clone(),
        None => match share {
            Some(m) => m.clone(),
            None => if no_blocks && !processing {
                String::from_str("Loading schedule...")
            } else {
                status.to_owned()
            },
        },
    }
}

} // verus!
