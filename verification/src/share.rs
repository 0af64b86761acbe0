//! What the chart hands to a web page or a phone app: the progress line and
//! the day's blocks as JSON.
use vstd::prelude::*;
use vstd::string::*;
use crate::db::{t119, t120, t121, BlockView, StickerView, day_entry_views};
use crate::text::{chars_of, decimal, push_char, push_decimal, push_decimal64};

verus! {

/// The progress line: earned and goal stickers, with "— Goal met!" once the
/// goal is reached.
pub open spec fn progress_text(earned: i32, goal: i32) -> Seq<char> {
    decimal(earned as int) + " / "@ + decimal(goal as int) + " Stickers"@ + if earned >= goal {
        " — Goal met!"@
    } else {
        Seq::empty()
    }
}

/// The progress line of `earned` stickers against `goal`.
pub fn progress_message(earned: i32, goal: i32) -> (r: String)
    ensures
        r@ == progress_text(earned, goal),
{
    let mut s = String::new();
    push_decimal(&mut s, earned);
    s.append(" / ");
    push_decimal(&mut s, goal);
    s.append(" Stickers");
    if earned >= goal {
        s.append(" — Goal met!");
    }
    s
}

/// `s` with a backslash before every double quote.
pub open spec fn escape_quotes(s: Seq<char>) -> Seq<char>
    decreases s.len(),
{
    if s.len() == 0 {
        Seq::empty()
    } else {
        escape_quotes(s.drop_last()) + if s.last() == '"' {
            seq!['\\', '"']
        } else {
            seq![s.last()]
        }
    }
}

/// The JSON object of one block and its record on the day: id, name, value
/// (0 without a record) and note ("" without one).
pub open spec fn block_json(b: BlockView, r: Option<StickerView>) -> Seq<char> {
    let value: int = match r {
        Some(rec) => rec.value.points(),
        None => 0,
    };
    let note: Seq<char> = match r {
        Some(rec) => match rec.note {
            Some(n) => n,
            None => Seq::empty(),
        },
        None => Seq::empty(),
    };
    "{\"id\":"@ + decimal(b.id as int) + ",\"name\":\""@ + escape_quotes(b.name) + "\",\"value\":"@
        + decimal(value) + ",\"note\":\""@ + escape_quotes(note) + "\"}"@
}

/// The JSON objects of `entries`, separated by commas.
pub open spec fn objects_json(entries: Seq<(BlockView, Option<StickerView>)>) -> Seq<char>
    decreases entries.len(),
{
    if entries.len() == 0 {
        Seq::empty()
    } else if entries.len() == 1 {
        block_json(entries[0].0, entries[0].1)
    } else {
        objects_json(entries.drop_last()) + ","@ + block_json(
            entries.last().0,
            entries.last().1,
        )
    }
}

/// The JSON array of the day's blocks.
pub open spec fn day_json(entries: Seq<(BlockView, Option<StickerView>)>) -> Seq<char> {
    "["@ + objects_json(entries) + "]"@
}

fn push_escaped(out: &mut String, s: &str)
    ensures
        final(out)@ == old(out)@ + escape_quotes(s@),
{
    let chars = chars_of(s);
    let ghost before = out@;
    let mut i: usize = 0;
    while i < chars.len()
        invariant
            0 <= i <= chars@.len(),
            chars@ == s@,
            out@ == before + escape_quotes(chars@.take(i as int)),
        decreases chars@.len() - i,
    {
        assert(chars@.take(i + 1).drop_last() =~= chars@.take(i as int));
        let c = chars[i];
        if c == '"' {
            push_char(out, '\\');
            push_char(out, '"');
        } else {
            push_char(out, c);
        }
        i += 1;
        assert(out@ =~= before + escape_quotes(chars@.take(i as int)));
    }
    assert(chars@.take(i as int) =~= chars@);
}

fn push_block_json(out: &mut String, block: &t120, record: &Option<t121>)
    ensures
        final(out)@ == old(out)@ + block_json(block@, match record {
            Some(rec) => Some(rec@),
            None => None,
        }),
{
    let ghost before = out@;
    out.append("{\"id\":");
    push_decimal64(out, block.s0);
    out.append(",\"name\":\"");
    push_escaped(out, block.s1.as_str());
    out.append("\",\"value\":");
    let value: i32 = match record {
        Some(rec) => rec.s5.stored(),
        None => 0,
    };
    push_decimal(out, value);
    out.append(",\"note\":\"");
    match record {
        Some(rec) => match &rec.s9 {
            Some(n) => push_escaped(out, n.as_str()),
            None => push_escaped(out, ""),
        },
        None => push_escaped(out, ""),
    }
    out.append("\"}");
    proof {
        assert(""@.len() == 0) by {
            reveal_strlit("");
        }
        assert(""@ =~= Seq::<char>::empty());
        assert(out@ =~= before + block_json(block@, match record {
            Some(rec) => Some(rec@),
            None => None,
        }));
    }
}

/// The day's blocks as a JSON array: for each block, in order, its id, name,
/// sticker value and note, with double quotes in the texts escaped.
pub fn blocks_json(entries: &[(t120, Option<t121>)]) -> (r: String)
    ensures
        r@ == day_json(day_entry_views(entries@)),
{
    let ghost ev = day_entry_views(entries@);
    let mut out = String::from_str("[");
    let ghost start = out@;
    let mut i: usize = 0;
    while i < entries.len()
        invariant
            0 <= i <= entries@.len(),
            ev == day_entry_views(entries@),
            out@ == start + objects_json(ev.take(i as int)),
        decreases entries@.len() - i,
    {
        let ghost taken = ev.take(i + 1);
        assert(taken.drop_last() =~= ev.take(i as int));
        assert(taken.last() == ev[i as int]);
        if i > 0 {
            out.append(",");
        } else {
            assert(ev.take(0) =~= Seq::<(BlockView, Option<StickerView>)>::empty());
        }
        push_block_json(&mut out, &entries[i].0, &entries[i].1);
        assert(out@ =~= start + objects_json(taken));
        i += 1;
    }
    assert(ev.take(i as int) =~= ev);
    out.append("]");
    out
}

/// The digit of a sticker value in the JSON: 0, 1 or 2.
pub open spec fn value_digit(v: t119) -> Seq<char> {
    match v {
        t119::Zero => "0"@,
        t119::One => "1"@,
        t119::Two => "2"@,
    }
}

/// What the front ends are handed for a block: its id, its name with quotes
/// escaped, the digit of its sticker value (0 for a block with no record),
/// whether or not the record has a note, and the note ("" where there is
/// none); a note changes nothing but the note field.
pub proof fn law_json_carries_value_and_note(b: BlockView, rec: StickerView)
    ensures
        block_json(b, Some(rec)) == "{\"id\":"@ + decimal(b.id as int) + ",\"name\":\""@
            + escape_quotes(b.name) + "\",\"value\":"@ + value_digit(rec.value) + ",\"note\":\""@
            + escape_quotes(
            match rec.note {
                Some(n) => n,
                None => Seq::empty(),
            },
        ) + "\"}"@,
        block_json(b, None) == "{\"id\":"@ + decimal(b.id as int) + ",\"name\":\""@
            + escape_quotes(b.name) + "\",\"value\":0,\"note\":\"\"}"@,
{
    reveal_strlit("0");
    reveal_strlit("1");
    reveal_strlit("2");
    reveal_strlit("\",\"value\":0,\"note\":\"\"}");
    reveal_strlit("\",\"value\":");
    reveal_strlit(",\"note\":\"");
    reveal_strlit("\"}");
    assert(decimal(0) =~= "0"@);
    assert(decimal(1) =~= "1"@);
    assert(decimal(2) =~= "2"@);
    assert(escape_quotes(Seq::<char>::empty()) =~= Seq::<char>::empty());
    assert(block_json(b, None) =~= "{\"id\":"@ + decimal(b.id as int) + ",\"name\":\""@
        + escape_quotes(b.name) + "\",\"value\":0,\"note\":\"\"}"@);
}

/// The progress line reads "earned / goal Stickers", and says "— Goal met!"
/// exactly once the earned stickers reach the goal, equal included.
pub proof fn law_progress_goal_met(earned: i32, goal: i32)
    ensures
        earned >= goal ==> progress_text(earned, goal) == decimal(earned as int) + " / "@ + decimal(
            goal as int,
        ) + " Stickers — Goal met!"@,
        earned < goal ==> progress_text(earned, goal) == decimal(earned as int) + " / "@ + decimal(
            goal as int,
        ) + " Stickers"@,
{
    reveal_strlit(" Stickers");
    reveal_strlit(" — Goal met!");
    reveal_strlit(" Stickers — Goal met!");
    if earned >= goal {
        assert(progress_text(earned, goal) =~= decimal(earned as int) + " / "@ + decimal(goal as int)
            + " Stickers — Goal met!"@);
    } else {
        assert(progress_text(earned, goal) =~= decimal(earned as int) + " / "@ + decimal(goal as int)
            + " Stickers"@);
    }
}

} // verus!
