//! What the sticker store promises across its operations.
use vstd::prelude::*;
use crate::db::{t119, t120, t121, t122, BlockView, StickerView, StoreView, StudentView, day_total,
    default_blocks, listed_before, keeps_block, keeps_record, block_views, record_views, rows_view,
    student_views};

verus! {

/// The stickers a record counts toward day `d`.
pub open spec fn points_on(r: StickerView, d: Seq<char>) -> int {
    if r.date == d {
        r.value.points()
    } else {
        0
    }
}

proof fn lemma_day_total_update(s: Seq<StickerView>, i: int, r: StickerView, d: Seq<char>)
    requires
        0 <= i < s.len(),
    ensures
        day_total(s.update(i, r), d) == day_total(s, d) - points_on(s[i], d) + points_on(r, d),
    decreases s.len(),
{
    if i == s.len() - 1 {
        assert(s.update(i, r).drop_last() =~= s.drop_last());
    } else {
        lemma_day_total_update(s.drop_last(), i, r, d);
        assert(s.update(i, r).drop_last() =~= s.drop_last().update(i, r));
    }
}

proof fn lemma_day_total_remove(s: Seq<StickerView>, i: int, d: Seq<char>)
    requires
        0 <= i < s.len(),
    ensures
        day_total(s.remove(i), d) == day_total(s, d) - points_on(s[i], d),
    decreases s.len(),
{
    if i == s.len() - 1 {
        assert(s.remove(i) =~= s.drop_last());
    } else {
        lemma_day_total_remove(s.drop_last(), i, d);
        assert(s.remove(i).drop_last() =~= s.drop_last().remove(i));
        assert(s.remove(i).last() == s.last());
    }
}

proof fn lemma_day_total_push(s: Seq<StickerView>, r: StickerView, d: Seq<char>)
    ensures
        day_total(s.push(r), d) == day_total(s, d) + points_on(r, d),
{
    assert(s.push(r).drop_last() =~= s);
}

/// Read after write: once a block's sticker for a day is set, that day's record
/// of the block is the one written and its value is the value written.
pub proof fn law_read_after_write(s: StoreView, b: i64, d: Seq<char>, v: t119, note: Option<Seq<char>>)
    requires
        s.valid(),
    ensures
        s.with_sticker(b, d, v, note).sticker_record(b, d) == Some(
            StickerView { block_id: b, date: d, value: v, note: note },
        ),
        s.with_sticker(b, d, v, note).sticker_value(b, d) == v,
{
    let t = s.with_sticker(b, d, v, note);
    let i = if s.has_sticker(b, d) {
        s.sticker_index(b, d)
    } else {
        s.stickers.len() as int
    };
    assert(t.stickers[i].block_id == b && t.stickers[i].date == d);
    assert(t.has_sticker(b, d));
    let k = t.sticker_index(b, d);
    if k != i {
        if s.has_sticker(b, d) {
            if k < i {
                assert(!crate::db::same_slot(s.stickers[k], s.stickers[i]));
            } else {
                assert(!crate::db::same_slot(s.stickers[i], s.stickers[k]));
            }
        } else {
            assert(s.stickers[k].block_id == b && s.stickers[k].date == d);
        }
    }
}

/// Writing one block's sticker for one day changes no other block's or day's
/// record.
pub proof fn law_write_keeps_other_slots(
    s: StoreView,
    b: i64,
    d: Seq<char>,
    v: t119,
    note: Option<Seq<char>>,
    b2: i64,
    d2: Seq<char>,
)
    requires
        s.valid(),
        b2 != b || d2 != d,
    ensures
        s.with_sticker(b, d, v, note).sticker_record(b2, d2) == s.sticker_record(b2, d2),
{
    let t = s.with_sticker(b, d, v, note);
    if s.has_sticker(b2, d2) {
        let k = s.sticker_index(b2, d2);
        assert(t.stickers[k] == s.stickers[k]);
        assert(t.has_sticker(b2, d2));
        let k2 = t.sticker_index(b2, d2);
        if k2 != k {
            if s.has_sticker(b, d) && k2 == s.sticker_index(b, d) {
            } else if k2 < s.stickers.len() {
                assert(t.stickers[k2] == s.stickers[k2]);
                if k2 < k {
                    assert(!crate::db::same_slot(s.stickers[k2], s.stickers[k]));
                } else {
                    assert(!crate::db::same_slot(s.stickers[k], s.stickers[k2]));
                }
            }
        }
    } else {
        if t.has_sticker(b2, d2) {
            let k2 = t.sticker_index(b2, d2);
            if s.has_sticker(b, d) && k2 == s.sticker_index(b, d) {
            } else if k2 < s.stickers.len() {
                assert(t.stickers[k2] == s.stickers[k2]);
            }
        }
    }
}

/// The last write wins: setting a block's sticker for a day twice leaves what
/// setting it once to the second value leaves.
pub proof fn law_last_write_wins(
    s: StoreView,
    b: i64,
    d: Seq<char>,
    v1: t119,
    n1: Option<Seq<char>>,
    v2: t119,
    n2: Option<Seq<char>>,
)
    requires
        s.valid(),
    ensures
        s.with_sticker(b, d, v1, n1).with_sticker(b, d, v2, n2) == s.with_sticker(b, d, v2, n2),
{
    let t = s.with_sticker(b, d, v1, n1);
    let i = if s.has_sticker(b, d) {
        s.sticker_index(b, d)
    } else {
        s.stickers.len() as int
    };
    assert(t.stickers[i].block_id == b && t.stickers[i].date == d);
    assert(t.has_sticker(b, d));
    let k = t.sticker_index(b, d);
    if k != i {
        if s.has_sticker(b, d) {
            if k < i {
                assert(!crate::db::same_slot(s.stickers[k], s.stickers[i]));
            } else {
                assert(!crate::db::same_slot(s.stickers[i], s.stickers[k]));
            }
        } else {
            assert(s.stickers[k].block_id == b && s.stickers[k].date == d);
        }
    }
    assert(t.with_sticker(b, d, v2, n2).stickers =~= s.with_sticker(b, d, v2, n2).stickers);
    assert(t.with_sticker(b, d, v2, n2) =~= s.with_sticker(b, d, v2, n2));
}

/// Undo: removing a block's record for a day leaves no record there, so the
/// value reads `Zero` again.
pub proof fn law_delete_clears(s: StoreView, b: i64, d: Seq<char>)
    requires
        s.valid(),
    ensures
        s.without_sticker(b, d).sticker_record(b, d) == None::<StickerView>,
        s.without_sticker(b, d).sticker_value(b, d) == t119::Zero,
{
    let t = s.without_sticker(b, d);
    if t.has_sticker(b, d) {
        let k = t.sticker_index(b, d);
        if s.has_sticker(b, d) {
            let i = s.sticker_index(b, d);
            let k0 = if k < i { k } else { k + 1 };
            assert(t.stickers[k] == s.stickers[k0]);
            if k0 < i {
                assert(!crate::db::same_slot(s.stickers[k0], s.stickers[i]));
            } else {
                assert(!crate::db::same_slot(s.stickers[i], s.stickers[k0]));
            }
        }
    }
}

/// A day's count after a write: the old value of that block and day is taken
/// out and the new one put in; other days keep their count.
pub proof fn law_count_after_write(
    s: StoreView,
    b: i64,
    d: Seq<char>,
    v: t119,
    note: Option<Seq<char>>,
    d2: Seq<char>,
)
    requires
        s.valid(),
    ensures
        s.with_sticker(b, d, v, note).day_count(d) == s.day_count(d) - s.sticker_value(b, d).points()
            + v.points(),
        d2 != d ==> s.with_sticker(b, d, v, note).day_count(d2) == s.day_count(d2),
{
    let r = StickerView { block_id: b, date: d, value: v, note: note };
    if s.has_sticker(b, d) {
        let i = s.sticker_index(b, d);
        lemma_day_total_update(s.stickers, i, r, d);
        lemma_day_total_update(s.stickers, i, r, d2);
    } else {
        lemma_day_total_push(s.stickers, r, d);
        lemma_day_total_push(s.stickers, r, d2);
    }
}

/// A day's count after an undo: the removed record's stickers are taken out;
/// other days keep their count.
pub proof fn law_count_after_delete(s: StoreView, b: i64, d: Seq<char>, d2: Seq<char>)
    requires
        s.valid(),
    ensures
        s.without_sticker(b, d).day_count(d) == s.day_count(d) - s.sticker_value(b, d).points(),
        d2 != d ==> s.without_sticker(b, d).day_count(d2) == s.day_count(d2),
{
    if s.has_sticker(b, d) {
        let i = s.sticker_index(b, d);
        lemma_day_total_remove(s.stickers, i, d);
        lemma_day_total_remove(s.stickers, i, d2);
    }
}

/// Filling the default schedule twice leaves what filling it once leaves.
pub proof fn law_default_schedule_idempotent(s: StoreView)
    requires
        s.valid(),
    ensures
        s.with_default_schedule().with_default_schedule() == s.with_default_schedule(),
{
    let t = s.with_default_schedule();
    if s.blocks.len() == 0 && s.default_blocks_room() == 0 {
        assert(t.blocks.len() == 0);
        assert(t.default_blocks_room() == 0);
        assert(t.with_default_schedule() =~= t);
    }
}

/// A new chart's default schedule: five blocks, Cultural Arts, Community Circle,
/// Math, Recess and Lunch, with ids 1 to 5 and sort orders 0 to 4.
pub proof fn law_default_schedule_of_new_store()
    ensures
        StoreView::empty().with_default_schedule().blocks == default_blocks(1, 5),
        !StoreView::empty().default_schedule_fails(),
{
}

/// Adding the default student twice leaves what adding it once leaves.
pub proof fn law_default_student_idempotent(s: StoreView)
    requires
        s.valid(),
        s.students.len() > 0 || s.last_student_id < i64::MAX,
    ensures
        s.with_default_student().with_default_student() == s.with_default_student(),
        s.with_default_student().first_student() matches Some(st) && (s.students.len() == 0 ==> st
            == StudentView { id: (s.last_student_id + 1) as i64, name: "Luka"@, goal: 15 }),
{
}

/// Blocks are listed by sort order.
pub proof fn law_blocks_listed_by_sort_order(s: StoreView, i: int, j: int)
    requires
        s.valid(),
        0 <= i < j < s.blocks.len(),
    ensures
        s.blocks[i].sort_order <= s.blocks[j].sort_order,
{
    assert(listed_before(s.blocks[i], s.blocks[j]));
}

/// A new block is listed last, one longer list, under an id no block had.
pub proof fn law_added_block_listed_last(s: StoreView, name: Seq<char>)
    requires
        s.valid(),
        s.last_block_id < i64::MAX,
        s.next_sort_order() <= i32::MAX,
    ensures
        s.with_block_added(name).blocks.len() == s.blocks.len() + 1,
        s.with_block_added(name).blocks.last() == (BlockView {
            id: (s.last_block_id + 1) as i64,
            name: name,
            sort_order: s.next_sort_order() as i32,
        }),
        s.with_block_added(name).blocks.drop_last() == s.blocks,
        forall|i: int|
            0 <= i < s.blocks.len() ==> #[trigger] s.blocks[i].id < s.last_block_id + 1
                && s.blocks[i].sort_order < s.next_sort_order(),
{
    assert(s.with_block_added(name).blocks.drop_last() =~= s.blocks);
    assert forall|i: int| 0 <= i < s.blocks.len() implies #[trigger] s.blocks[i].id
        < s.last_block_id + 1 && s.blocks[i].sort_order < s.next_sort_order() by {
        if i < s.blocks.len() - 1 {
            assert(listed_before(s.blocks[i], s.blocks[s.blocks.len() - 1]));
        }
    }
}

proof fn lemma_filter_drops_one<A>(s: Seq<A>, pred: spec_fn(A) -> bool, i: int)
    requires
        0 <= i < s.len(),
        !pred(s[i]),
        forall|j: int| 0 <= j < s.len() && j != i ==> pred(#[trigger] s[j]),
    ensures
        s.filter(pred).len() == s.len() - 1,
    decreases s.len(),
{
    reveal(Seq::filter);
    if i == s.len() - 1 {
        lemma_filter_keeps_all(s.drop_last(), pred);
    } else {
        assert forall|j: int| 0 <= j < s.drop_last().len() && j != i implies pred(
            #[trigger] s.drop_last()[j],
        ) by {
            assert(s.drop_last()[j] == s[j]);
        }
        lemma_filter_drops_one(s.drop_last(), pred, i);
        assert(pred(s[s.len() - 1]));
    }
}

proof fn lemma_filter_keeps_all<A>(s: Seq<A>, pred: spec_fn(A) -> bool)
    requires
        forall|j: int| 0 <= j < s.len() ==> pred(#[trigger] s[j]),
    ensures
        s.filter(pred) == s,
    decreases s.len(),
{
    reveal(Seq::filter);
    if s.len() > 0 {
        assert forall|j: int| 0 <= j < s.drop_last().len() implies pred(
            #[trigger] s.drop_last()[j],
        ) by {
            assert(s.drop_last()[j] == s[j]);
        }
        lemma_filter_keeps_all(s.drop_last(), pred);
        assert(pred(s[s.len() - 1]));
        assert(s.drop_last().push(s.last()) =~= s);
    }
}

/// Deleting a block removes it and every sticker record of it, on every day; the
/// list is one shorter where the block was there and unchanged where it was not.
pub proof fn law_delete_block_cascades(s: StoreView, id: i64, d: Seq<char>)
    requires
        s.valid(),
    ensures
        !s.without_block(id).has_block(id),
        s.without_block(id).sticker_record(id, d) == None::<StickerView>,
        s.without_block(id).sticker_value(id, d) == t119::Zero,
        s.has_block(id) ==> s.without_block(id).blocks.len() == s.blocks.len() - 1,
        !s.has_block(id) ==> s.without_block(id).blocks == s.blocks,
{
    let t = s.without_block(id);
    broadcast use vstd::seq_lib::group_filter_ensures;
    if t.has_block(id) {
        let k = choose|k: int| 0 <= k < t.blocks.len() && #[trigger] t.blocks[k].id == id;
        assert(keeps_block(id)(s.blocks.filter(keeps_block(id))[k]));
    }
    if t.has_sticker(id, d) {
        let k = t.sticker_index(id, d);
        assert(keeps_record(id)(s.stickers.filter(keeps_record(id))[k]));
    }
    if s.has_block(id) {
        let i = choose|i: int| 0 <= i < s.blocks.len() && #[trigger] s.blocks[i].id == id;
        assert forall|j: int| 0 <= j < s.blocks.len() && j != i implies keeps_block(id)(
            #[trigger] s.blocks[j],
        ) by {
            if j < i {
                assert(s.blocks[j].id != s.blocks[i].id);
            } else {
                assert(s.blocks[i].id != s.blocks[j].id);
            }
        }
        lemma_filter_drops_one(s.blocks, keeps_block(id), i);
    } else {
        assert forall|j: int| 0 <= j < s.blocks.len() implies keeps_block(id)(
            #[trigger] s.blocks[j],
        ) by {
            if s.blocks[j].id == id {
                assert(s.has_block(id));
            }
        }
        lemma_filter_keeps_all(s.blocks, keeps_block(id));
    }
}

/// Renaming a block changes that block's name and nothing else: the same ids,
/// sort orders and order.
pub proof fn law_rename_changes_only_name(s: StoreView, id: i64, name: Seq<char>, i: int)
    requires
        s.valid(),
        0 <= i < s.blocks.len(),
    ensures
        s.with_block_renamed(id, name).blocks.len() == s.blocks.len(),
        s.with_block_renamed(id, name).blocks[i].id == s.blocks[i].id,
        s.with_block_renamed(id, name).blocks[i].sort_order == s.blocks[i].sort_order,
        s.with_block_renamed(id, name).blocks[i].name == if s.blocks[i].id == id {
            name
        } else {
            s.blocks[i].name
        },
        s.with_block_renamed(id, name).stickers == s.stickers,
{
}

/// Saving and loading: the rows that `rows` hands out for a store load back,
/// through `from_rows`, into a store equal to it, and they keep the store's
/// rules, so loading them does not fail.
pub proof fn law_rows_load_back(
    s: StoreView,
    students: Seq<t122>,
    blocks: Seq<t120>,
    stickers: Seq<t121>,
    last_student_id: i64,
    last_block_id: i64,
)
    requires
        s.valid(),
        student_views(students) == s.students,
        block_views(blocks) == s.blocks,
        record_views(stickers) == s.stickers,
        last_student_id == s.last_student_id,
        last_block_id == s.last_block_id,
    ensures
        rows_view(students, blocks, stickers, last_student_id, last_block_id) == s,
        rows_view(students, blocks, stickers, last_student_id, last_block_id).valid(),
{
}

/// The day's list shows what was written: once block `b` is scored `v` with
/// `note` on day `d`, the day's list has, at the place of that block, the
/// block with exactly that record, whatever the value, `Zero` included; every
/// other block keeps the record it had that day.
pub proof fn law_day_list_shows_written_record(
    s: StoreView,
    b: i64,
    d: Seq<char>,
    v: t119,
    note: Option<Seq<char>>,
    i: int,
)
    requires
        s.valid(),
        0 <= i < s.blocks.len(),
        s.blocks[i].id == b,
    ensures
        s.with_sticker(b, d, v, note).day_records(d).len() == s.blocks.len(),
        s.with_sticker(b, d, v, note).day_records(d)[i] == (
            s.blocks[i],
            Some(StickerView { block_id: b, date: d, value: v, note: note }),
        ),
        forall|j: int|
            0 <= j < s.blocks.len() && s.blocks[j].id != b ==> #[trigger] s.with_sticker(
                b,
                d,
                v,
                note,
            ).day_records(d)[j] == s.day_records(d)[j],
{
    law_read_after_write(s, b, d, v, note);
    let t = s.with_sticker(b, d, v, note);
    assert forall|j: int| 0 <= j < s.blocks.len() && s.blocks[j].id != b implies #[trigger] t.day_records(
        d,
    )[j] == s.day_records(d)[j] by {
        law_write_keeps_other_slots(s, b, d, v, note, s.blocks[j].id, d);
    }
}

/// The day's list holds every block, in list order, each with the store's
/// record of that block on the day (none where it has none).
pub proof fn law_day_list_is_every_block(s: StoreView, d: Seq<char>, i: int)
    requires
        0 <= i < s.blocks.len(),
    ensures
        s.day_records(d).len() == s.blocks.len(),
        s.day_records(d)[i].0 == s.blocks[i],
        s.day_records(d)[i].1 == s.sticker_record(s.blocks[i].id, d),
{
}

/// Updating a student sets exactly the name and goal given, whatever they
/// were, a lower goal included; every other student, the number of students
/// and their order stay as they were, and for the single student of the chart
/// the first student reads back as updated.
pub proof fn law_update_sets_name_and_goal(s: StoreView, id: i64, name: Seq<char>, goal: i32, i: int)
    requires
        0 <= i < s.students.len(),
        s.students[i].id == id,
    ensures
        s.with_student_updated(id, name, goal).students.len() == s.students.len(),
        s.with_student_updated(id, name, goal).students[i] == (StudentView {
            id: id,
            name: name,
            goal: goal,
        }),
        s.with_student_updated(id, name, goal).students[i].goal == goal,
        forall|j: int|
            0 <= j < s.students.len() && s.students[j].id != id ==> #[trigger] s.with_student_updated(
                id,
                name,
                goal,
            ).students[j] == s.students[j],
        i == 0 ==> s.with_student_updated(id, name, goal).first_student() == Some(
            StudentView { id: id, name: name, goal: goal },
        ),
{
}

/// Undo touches one record only: removing block `b`'s record on day `d`
/// leaves every other block's and day's record as it was.
pub proof fn law_delete_keeps_other_slots(s: StoreView, b: i64, d: Seq<char>, b2: i64, d2: Seq<char>)
    requires
        s.valid(),
        b2 != b || d2 != d,
    ensures
        s.without_sticker(b, d).sticker_record(b2, d2) == s.sticker_record(b2, d2),
{
    let t = s.without_sticker(b, d);
    if s.has_sticker(b, d) {
        let i = s.sticker_index(b, d);
        if s.has_sticker(b2, d2) {
            let k = s.sticker_index(b2, d2);
            let kt = if k < i { k } else { k - 1 };
            assert(t.stickers[kt] == s.stickers[k]);
            assert(t.has_sticker(b2, d2));
            let k2 = t.sticker_index(b2, d2);
            let k0 = if k2 < i { k2 } else { k2 + 1 };
            assert(t.stickers[k2] == s.stickers[k0]);
            if k0 < k {
                assert(!crate::db::same_slot(s.stickers[k0], s.stickers[k]));
            } else if k < k0 {
                assert(!crate::db::same_slot(s.stickers[k], s.stickers[k0]));
            }
        } else if t.has_sticker(b2, d2) {
            let k2 = t.sticker_index(b2, d2);
            let k0 = if k2 < i { k2 } else { k2 + 1 };
            assert(t.stickers[k2] == s.stickers[k0]);
        }
    }
}

/// A store with no records counts no stickers on any day.
pub proof fn law_no_records_no_stickers(s: StoreView, d: Seq<char>)
    requires
        s.stickers.len() == 0,
    ensures
        s.day_count(d) == 0,
{
}

/// The chart's student is the one added first: the first student, where
/// there is any, is a student of the store with the lowest id of all; there
/// is none only where the store has no students.
pub proof fn law_first_student_is_oldest(s: StoreView)
    requires
        s.valid(),
    ensures
        s.first_student() is None <==> s.students.len() == 0,
        s.first_student() matches Some(st) ==> s.students.contains(st) && forall|j: int|
            0 <= j < s.students.len() ==> st.id <= #[trigger] s.students[j].id,
{
    if s.students.len() > 0 {
        let st = s.students[0];
        assert(s.students[0] == st);
        assert forall|j: int| 0 <= j < s.students.len() implies st.id <= #[trigger] s.students[j].id by {
            if j > 0 {
                assert(s.students[0].id < s.students[j].id);
            }
        }
    }
}

} // verus!
