//! f147: the plain-text daily sticker report shared with parents.
use vstd::prelude::*;
use vstd::string::*;
use crate::db::{t119, t120, t121, t122, BlockView, StickerView, StudentView, day_entry_views};
use crate::text::{decimal, push_decimal, string_views};

verus! {

/// The word for a sticker value in the report.
pub open spec fn label_of(v: t119) -> Seq<char> {
    match v {
        t119::Zero => "Needs work"@,
        t119::One => "Good"@,
        t119::Two => "Great"@,
    }
}

/// The mark for a sticker value in the report.
pub open spec fn mark_of(v: t119) -> Seq<char> {
    match v {
        t119::Zero => "○"@,
        t119::One => "●"@,
        t119::Two => "●●"@,
    }
}

/// The report line of one block: its mark, name and word, then ": " and the
/// note where there is a non-empty one; "No observation" where the block has
/// no record.
pub open spec fn record_line(b: BlockView, r: Option<StickerView>) -> Seq<char> {
    match r {
        Some(rec) => mark_of(rec.value) + " "@ + b.name + " — "@ + label_of(rec.value) + match rec.note {
            Some(n) => if n.len() > 0 {
                ": "@ + n
            } else {
                Seq::empty()
            },
            None => Seq::empty(),
        },
        None => "○ "@ + b.name + " — No observation"@,
    }
}

/// The title line of a report.
pub open spec fn title_line(student: StudentView, date: Seq<char>) -> Seq<char> {
    student.name + "'s Sticker Report — "@ + date
}

/// The progress line of a report.
pub open spec fn progress_line(student: StudentView, earned: i32) -> Seq<char> {
    "Progress: "@ + decimal(earned as int) + " / "@ + decimal(student.goal as int) + " stickers"@
}

/// The lines of a daily report: title, progress, "Goal met!" when `earned`
/// reaches the goal, a blank line, one line per block, a blank line and the
/// closing line.
pub open spec fn report_lines(
    student: StudentView,
    date: Seq<char>,
    entries: Seq<(BlockView, Option<StickerView>)>,
    earned: i32,
) -> Seq<Seq<char>> {
    let head = seq![title_line(student, date), progress_line(student, earned)];
    let head = if earned >= student.goal {
        head.push("Goal met!"@)
    } else {
        head
    };
    head.push(Seq::empty()) + entries.map_values(
        |e: (BlockView, Option<StickerView>)| record_line(e.0, e.1),
    ) + seq![Seq::empty(), "— Sent from WowaSticker"@]
}

/// Lines joined with a newline between each two.
pub open spec fn join_lines(lines: Seq<Seq<char>>) -> Seq<char>
    decreases lines.len(),
{
    if lines.len() == 0 {
        Seq::empty()
    } else if lines.len() == 1 {
        lines[0]
    } else {
        join_lines(lines.drop_last()) + "\n"@ + lines.last()
    }
}

/// The lines joined with "\n" between each two.
fn join_with_newlines(lines: &Vec<String>) -> (r: String)
    ensures
        r@ == join_lines(string_views(lines@)),
{
    let mut out = String::new();
    let mut i: usize = 0;
    while i < lines.len()
        invariant
            0 <= i <= lines@.len(),
            out@ == join_lines(string_views(lines@).take(i as int)),
        decreases lines@.len() - i,
    {
        let ghost taken = string_views(lines@).take(i + 1);
        assert(taken.drop_last() =~= string_views(lines@).take(i as int));
        if i > 0 {
            out.append("\n");
        } else {
            assert(string_views(lines@).take(0) =~= Seq::<Seq<char>>::empty());
        }
        out.append(lines[i].as_str());
        assert(out@ =~= join_lines(taken));
        i += 1;
    }
    assert(string_views(lines@).take(i as int) =~= string_views(lines@));
    out
}

/// The word for a sticker value.
fn sticker_label(v: t119) -> (r: &'static str)
    ensures
        r@ == label_of(v),
{
    match v {
        t119::Zero => "Needs work",
        t119::One => "Good",
        t119::Two => "Great",
    }
}

/// The mark for a sticker value.
fn sticker_emoji(v: t119) -> (r: &'static str)
    ensures
        r@ == mark_of(v),
{
    match v {
        t119::Zero => "○",
        t119::One => "●",
        t119::Two => "●●",
    }
}

/// The report line of one block and its optional record.
fn block_line(block: &t120, record: &Option<t121>) -> (r: String)
    ensures
        r@ == record_line(block@, match record {
            Some(rec) => Some(rec@),
            None => None,
        }),
{
    match record {
        Some(rec) => {
            let mut line = String::from_str(sticker_emoji(rec.s5));
            line.append(" ");
            line.append(block.s1.as_str());
            line.append(" — ");
            line.append(sticker_label(rec.s5));
            match &rec.s9 {
                Some(note) => {
                    if !note.as_str().is_empty() {
                        line.append(": ");
                        line.append(note.as_str());
                    }
                },
                None => {},
            }
            line
        },
        None => {
            let mut line = String::from_str("○ ");
            line.append(block.s1.as_str());
            line.append(" — No observation");
            line
        },
    }
}

/// f147 (generate_daily_report): the daily report of `student` on `date`, with
/// one line per block of `records` and `earned` stickers against the goal.
pub fn generate_daily_report(
    student: &t122,
    date: &str,
    records: &[(t120, Option<t121>)],
    earned: i32,
) -> (r: String)
    ensures
        r@ == join_lines(report_lines(student@, date@, day_entry_views(records@), earned)),
{
    let ghost entries = day_entry_views(records@);
    let ghost want = report_lines(student@, date@, entries, earned);
    let mut lines: Vec<String> = Vec::new();
    let mut title = student.s7.clone();
    title.append("'s Sticker Report — ");
    title.append(date);
    lines.push(title);
    let mut progress = String::from_str("Progress: ");
    push_decimal(&mut progress, earned);
    progress.append(" / ");
    push_decimal(&mut progress, student.s8);
    progress.append(" stickers");
    lines.push(progress);
    if earned >= student.s8 {
        lines.push(String::from_str("Goal met!"));
    }
    lines.push(String::new());
    let ghost head_len = lines@.len();
    assert(string_views(lines@) =~= want.take(head_len as int));
    let mut i: usize = 0;
    while i < records.len()
        invariant
            0 <= i <= records@.len(),
            entries == day_entry_views(records@),
            want == report_lines(student@, date@, entries, earned),
            head_len == 3 || head_len == 4,
            lines@.len() == head_len + i,
            string_views(lines@) == want.take(head_len + i),
            head_len == 4 <==> earned >= student@.goal,
        decreases records@.len() - i,
    {
        let line = block_line(&records[i].0, &records[i].1);
        let ghost prev = lines@;
        lines.push(line);
        proof {
            assert(lines@ == prev.push(line));
            assert(line@ == want[head_len + i]);
            assert(string_views(lines@) =~= want.take(head_len + i + 1));
        }
        i += 1;
    }
    let ghost prev = lines@;
    let blank = String::new();
    let footer = String::from_str("— Sent from WowaSticker");
    lines.push(blank);
    lines.push(footer);
    proof {
        let n = records@.len() as int;
        assert(lines@ == prev.push(blank).push(footer));
        assert(want.len() == head_len + n + 2);
        assert(want[head_len + n] == Seq::<char>::empty());
        assert(want[head_len + n + 1] == "— Sent from WowaSticker"@);
        assert forall|k: int| 0 <= k < head_len + n implies #[trigger] string_views(lines@)[k]
            == want[k] by {
            assert(string_views(prev)[k] == want.take(head_len + n)[k]);
        }
        assert(string_views(lines@) =~= want);
    }
    join_with_newlines(&lines)
}

/// The shape of a report: the title first, the progress line second, "Goal
/// met!" third exactly when the earned stickers reach the goal, then a blank
/// line, one line per block in the order given, a blank line and the closing
/// line.
pub proof fn law_report_shape(
    student: StudentView,
    date: Seq<char>,
    entries: Seq<(BlockView, Option<StickerView>)>,
    earned: i32,
)
    ensures
        ({
            let lines = report_lines(student, date, entries, earned);
            let head: int = if earned >= student.goal {
                4
            } else {
                3
            };
            &&& lines.len() == head + entries.len() + 2
            &&& lines[0] == title_line(student, date)
            &&& lines[1] == progress_line(student, earned)
            &&& (lines[2] == "Goal met!"@ <==> earned >= student.goal)
            &&& lines[head - 1] == Seq::<char>::empty()
            &&& forall|i: int|
                0 <= i < entries.len() ==> #[trigger] lines[head + i] == record_line(
                    entries[i].0,
                    entries[i].1,
                )
            &&& lines[head + entries.len()] == Seq::<char>::empty()
            &&& lines[head + entries.len() + 1] == "— Sent from WowaSticker"@
        }),
{
    reveal_strlit("Goal met!");
    let lines = report_lines(student, date, entries, earned);
    let head: int = if earned >= student.goal {
        4
    } else {
        3
    };
    if earned < student.goal {
        assert(lines[2] == Seq::<char>::empty());
        assert("Goal met!"@.len() == 9);
    }
    assert forall|i: int| 0 <= i < entries.len() implies #[trigger] lines[head + i] == record_line(
        entries[i].0,
        entries[i].1,
    ) by {
    }
}

/// A note is appended to its block's line, whatever the sticker: the line of
/// a record with a non-empty note `n` is the line of the same record without
/// a note, followed by ": " and `n`, for `Zero`, `One` and `Two` alike; an
/// empty note adds nothing.
pub proof fn law_note_ends_the_line(b: BlockView, rec: StickerView, n: Seq<char>)
    requires
        rec.note == Some(n),
    ensures
        n.len() > 0 ==> record_line(b, Some(rec)) == record_line(
            b,
            Some(StickerView { note: None, ..rec }),
        ) + ": "@ + n,
        n.len() > 0 ==> record_line(b, Some(rec)).len() >= n.len() + 2 && record_line(
            b,
            Some(rec),
        ).skip(record_line(b, Some(rec)).len() - n.len() - 2) == ": "@ + n,
        n.len() == 0 ==> record_line(b, Some(rec)) == record_line(
            b,
            Some(StickerView { note: None, ..rec }),
        ),
{
    reveal_strlit(": ");
    let plain = record_line(b, Some(StickerView { note: None, ..rec }));
    if n.len() > 0 {
        assert(record_line(b, Some(rec)) =~= plain + (": "@ + n));
        let line = record_line(b, Some(rec));
        assert(line.skip(line.len() - n.len() - 2) =~= ": "@ + n);
    } else {
        assert(record_line(b, Some(rec)) =~= plain);
    }
}

/// The words of the report: a line starts with the sticker's mark (○ for
/// `Zero`, ● for `One`, ●● for `Two`), then the block's name, then "Needs
/// work", "Good" or "Great"; a block without a record reads "No observation".
pub proof fn law_report_words(b: BlockView, rec: StickerView)
    ensures
        rec.note == None::<Seq<char>> ==> record_line(b, Some(rec)) == match rec.value {
            t119::Zero => "○ "@ + b.name + " — Needs work"@,
            t119::One => "● "@ + b.name + " — Good"@,
            t119::Two => "●● "@ + b.name + " — Great"@,
        },
        record_line(b, None) == "○ "@ + b.name + " — No observation"@,
{
    reveal_strlit("○");
    reveal_strlit("●");
    reveal_strlit("●●");
    reveal_strlit(" ");
    reveal_strlit("○ ");
    reveal_strlit("● ");
    reveal_strlit("●● ");
    reveal_strlit(" — ");
    reveal_strlit(" — Needs work");
    reveal_strlit(" — Good");
    reveal_strlit(" — Great");
    reveal_strlit("Needs work");
    reveal_strlit("Good");
    reveal_strlit("Great");
    if rec.note == None::<Seq<char>> {
        match rec.value {
            t119::Zero => {
                assert(record_line(b, Some(rec)) =~= "○ "@ + b.name + " — Needs work"@);
            },
            t119::One => {
                assert(record_line(b, Some(rec)) =~= "● "@ + b.name + " — Good"@);
            },
            t119::Two => {
                assert(record_line(b, Some(rec)) =~= "●● "@ + b.name + " — Great"@);
            },
        }
    }
}

} // verus!
