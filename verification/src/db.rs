//! The sticker store: students, schedule blocks and per-day sticker records.
//!
//! The store keeps the rules of the sticker chart: ids handed out one after
//! another and never reused, schedule blocks listed by their sort order, at most
//! one sticker record per block and day, and a day's total as the sum of its
//! stickers.
use vstd::prelude::*;
use vstd::string::*;
use crate::clock::{is_day_text, today};
use crate::text::str_eq;

verus! {

/// t119: a sticker value. `Zero` = none, `One` = partial, `Two` = full.
#[derive(Debug, Clone, Copy, PartialEq, Eq, Structural)]
pub enum t119 {
    Zero,
    One,
    Two,
}

impl t119 {
    /// The number of stickers this value stands for.
    pub open spec fn points(self) -> int {
        match self {
            t119::Zero => 0,
            t119::One => 1,
            t119::Two => 2,
        }
    }

    /// The sticker value that a stored integer reads back as: 1 and 2 are
    /// themselves, anything else reads as `Zero`.
    pub open spec fn spec_from_stored(v: i32) -> t119 {
        if v == 1 {
            t119::One
        } else if v == 2 {
            t119::Two
        } else {
            t119::Zero
        }
    }

    /// The integer under which this value is stored.
    pub fn stored(&self) -> (r: i32)
        ensures
            r == self.points(),
    {
        match self {
            t119::Zero => 0,
            t119::One => 1,
            t119::Two => 2,
        }
    }

    /// Reads a stored integer back as a sticker value.
    pub fn from_stored(v: i32) -> (r: t119)
        ensures
            r == t119::spec_from_stored(v),
    {
        if v == 1 {
            t119::One
        } else if v == 2 {
            t119::Two
        } else {
            t119::Zero
        }
    }
}

impl Default for t119 {
    fn default() -> (r: t119)
        ensures
            r == t119::Zero,
    {
        t119::Zero
    }
}

/// t120: a schedule block. `s0` = id, `s1` = name, `s2` = sort order.
#[derive(Debug, Clone, PartialEq)]
pub struct t120 {
    pub s0: i64,
    pub s1: String,
    pub s2: i32,
}

/// What a schedule block holds.
pub struct BlockView {
    pub id: i64,
    pub name: Seq<char>,
    pub sort_order: i32,
}

impl View for t120 {
    type V = BlockView;

    open spec fn view(&self) -> BlockView {
        BlockView { id: self.s0, name: self.s1@, sort_order: self.s2 }
    }
}

impl t120 {
    /// A copy of this block.
    pub fn duplicate(&self) -> (r: t120)
        ensures
            r@ == self@,
    {
        t120 { s0: self.s0, s1: self.s1.clone(), s2: self.s2 }
    }
}

/// t121: a sticker record. `s3` = block id, `s4` = date, `s5` = value,
/// `s9` = note.
#[derive(Debug, Clone, PartialEq)]
pub struct t121 {
    pub s3: i64,
    pub s4: String,
    pub s5: t119,
    pub s9: Option<String>,
}

/// What a sticker record holds.
pub struct StickerView {
    pub block_id: i64,
    pub date: Seq<char>,
    pub value: t119,
    pub note: Option<Seq<char>>,
}

/// The view of an optional string.
pub open spec fn opt_view(s: Option<String>) -> Option<Seq<char>> {
    match s {
        Some(t) => Some(t@),
        None => None,
    }
}

/// The view of an optional string slice.
pub open spec fn opt_str_view(s: Option<&str>) -> Option<Seq<char>> {
    match s {
        Some(t) => Some(t@),
        None => None,
    }
}

impl View for t121 {
    type V = StickerView;

    open spec fn view(&self) -> StickerView {
        StickerView { block_id: self.s3, date: self.s4@, value: self.s5, note: opt_view(self.s9) }
    }
}

fn copy_opt_string(s: &Option<String>) -> (r: Option<String>)
    ensures
        opt_view(r) == opt_view(*s),
{
    match s {
        Some(t) => Some(t.clone()),
        None => None,
    }
}

fn own_opt_str(s: Option<&str>) -> (r: Option<String>)
    ensures
        opt_view(r) == opt_str_view(s),
{
    match s {
        Some(t) => Some(String::from_str(t)),
        None => None,
    }
}

impl t121 {
    /// A copy of this record.
    pub fn duplicate(&self) -> (r: t121)
        ensures
            r@ == self@,
    {
        t121 { s3: self.s3, s4: self.s4.clone(), s5: self.s5, s9: copy_opt_string(&self.s9) }
    }
}

/// t122: a student. `s6` = id, `s7` = name, `s8` = daily sticker goal.
#[derive(Debug, Clone, PartialEq)]
pub struct t122 {
    pub s6: i64,
    pub s7: String,
    pub s8: i32,
}

/// What a student holds.
pub struct StudentView {
    pub id: i64,
    pub name: Seq<char>,
    pub goal: i32,
}

impl View for t122 {
    type V = StudentView;

    open spec fn view(&self) -> StudentView {
        StudentView { id: self.s6, name: self.s7@, goal: self.s8 }
    }
}

impl t122 {
    /// A copy of this student.
    pub fn duplicate(&self) -> (r: t122)
        ensures
            r@ == self@,
    {
        t122 { s6: self.s6, s7: self.s7.clone(), s8: self.s8 }
    }
}

/// Why a store operation was refused.
#[derive(Debug, Clone, Copy, PartialEq, Eq, Structural)]
pub enum DbError {
    /// Every id of the table has been handed out.
    Full,
    /// A total does not fit the integer it is reported in.
    OutOfRange,
}

/// `a` is listed before `b`: by sort order, then by id.
pub open spec fn listed_before(a: BlockView, b: BlockView) -> bool {
    a.sort_order < b.sort_order || (a.sort_order == b.sort_order && a.id < b.id)
}

/// Two sticker records for the same block and day.
pub open spec fn same_slot(a: StickerView, b: StickerView) -> bool {
    a.block_id == b.block_id && a.date == b.date
}

/// The number of stickers earned on day `d` in `recs`.
pub open spec fn day_total(recs: Seq<StickerView>, d: Seq<char>) -> int
    decreases recs.len(),
{
    if recs.len() == 0 {
        0
    } else {
        day_total(recs.drop_last(), d) + (if recs.last().date == d {
            recs.last().value.points()
        } else {
            0
        })
    }
}

/// The names of the schedule a new chart starts with.
pub open spec fn default_block_names() -> Seq<Seq<char>> {
    seq!["Cultural Arts"@, "Community Circle"@, "Math"@, "Recess"@, "Lunch"@]
}

/// The first `k` default blocks, numbered from `first_id` on.
pub open spec fn default_blocks(first_id: int, k: nat) -> Seq<BlockView> {
    Seq::new(
        k,
        |i: int|
            BlockView {
                id: (first_id + i) as i64,
                name: default_block_names()[i],
                sort_order: i as i32,
            },
    )
}

/// Keeps the blocks whose id is not `id`.
pub open spec fn keeps_block(id: i64) -> spec_fn(BlockView) -> bool {
    |b: BlockView| b.id != id
}

/// Keeps the sticker records of blocks other than `id`.
pub open spec fn keeps_record(id: i64) -> spec_fn(StickerView) -> bool {
    |r: StickerView| r.block_id != id
}

/// The state of a sticker store.
#[verifier::ext_equal]
pub struct StoreView {
    /// Students, by id.
    pub students: Seq<StudentView>,
    /// Schedule blocks, listed by sort order, then id.
    pub blocks: Seq<BlockView>,
    /// Sticker records, at most one per block and day.
    pub stickers: Seq<StickerView>,
    /// The last student id handed out (0 before the first).
    pub last_student_id: i64,
    /// The last block id handed out (0 before the first).
    pub last_block_id: i64,
}

impl StoreView {
    /// The store with nothing in it.
    pub open spec fn empty() -> StoreView {
        StoreView {
            students: Seq::empty(),
            blocks: Seq::empty(),
            stickers: Seq::empty(),
            last_student_id: 0,
            last_block_id: 0,
        }
    }

    /// The rules every store keeps.
    pub open spec fn valid(self) -> bool {
        &&& 0 <= self.last_student_id
        &&& 0 <= self.last_block_id
        &&& forall|i: int|
            0 <= i < self.students.len() ==> 1 <= #[trigger] self.students[i].id
                <= self.last_student_id
        &&& forall|i: int, j: int|
            #![trigger self.students[i], self.students[j]]
            0 <= i < j < self.students.len() ==> self.students[i].id < self.students[j].id
        &&& forall|i: int|
            0 <= i < self.blocks.len() ==> 1 <= #[trigger] self.blocks[i].id
                <= self.last_block_id
        &&& forall|i: int, j: int|
            #![trigger self.blocks[i], self.blocks[j]]
            0 <= i < j < self.blocks.len() ==> self.blocks[i].id != self.blocks[j].id
                && listed_before(self.blocks[i], self.blocks[j])
        &&& forall|i: int, j: int|
            #![trigger self.stickers[i], self.stickers[j]]
            0 <= i < j < self.stickers.len() ==> !same_slot(self.stickers[i], self.stickers[j])
    }

    /// There is a sticker record for block `b` on day `d`.
    pub open spec fn has_sticker(self, b: i64, d: Seq<char>) -> bool {
        exists|i: int|
            0 <= i < self.stickers.len() && #[trigger] self.stickers[i].block_id == b
                && self.stickers[i].date == d
    }

    /// Where the sticker record for block `b` on day `d` stands.
    pub open spec fn sticker_index(self, b: i64, d: Seq<char>) -> int {
        choose|i: int|
            0 <= i < self.stickers.len() && #[trigger] self.stickers[i].block_id == b
                && self.stickers[i].date == d
    }

    /// The sticker record for block `b` on day `d`, if there is one.
    pub open spec fn sticker_record(self, b: i64, d: Seq<char>) -> Option<StickerView> {
        if self.has_sticker(b, d) {
            Some(self.stickers[self.sticker_index(b, d)])
        } else {
            None
        }
    }

    /// The sticker value of block `b` on day `d`: `Zero` where none was set.
    pub open spec fn sticker_value(self, b: i64, d: Seq<char>) -> t119 {
        match self.sticker_record(b, d) {
            Some(r) => r.value,
            None => t119::Zero,
        }
    }

    /// The store after setting block `b`'s sticker on day `d` to `v` with `note`.
    pub open spec fn with_sticker(self, b: i64, d: Seq<char>, v: t119, note: Option<Seq<char>>) -> StoreView {
        let r = StickerView { block_id: b, date: d, value: v, note: note };
        StoreView {
            stickers: if self.has_sticker(b, d) {
                self.stickers.update(self.sticker_index(b, d), r)
            } else {
                self.stickers.push(r)
            },
            ..self
        }
    }

    /// The store after removing the sticker record of block `b` on day `d`.
    pub open spec fn without_sticker(self, b: i64, d: Seq<char>) -> StoreView {
        StoreView {
            stickers: if self.has_sticker(b, d) {
                self.stickers.remove(self.sticker_index(b, d))
            } else {
                self.stickers
            },
            ..self
        }
    }

    /// The number of stickers earned on day `d`.
    pub open spec fn day_count(self, d: Seq<char>) -> int {
        day_total(self.stickers, d)
    }

    /// Every block with its sticker record (if any) on day `d`, in list order.
    pub open spec fn day_records(self, d: Seq<char>) -> Seq<(BlockView, Option<StickerView>)> {
        self.blocks.map_values(|b: BlockView| (b, self.sticker_record(b.id, d)))
    }

    /// How many default blocks can still get an id.
    pub open spec fn default_blocks_room(self) -> int {
        if i64::MAX - self.last_block_id < 5 {
            i64::MAX - self.last_block_id
        } else {
            5
        }
    }

    /// The store after filling an empty schedule with the default blocks, as
    /// far as ids last.
    pub open spec fn with_default_schedule(self) -> StoreView {
        if self.blocks.len() > 0 {
            self
        } else {
            let k = self.default_blocks_room();
            StoreView {
                blocks: default_blocks(self.last_block_id + 1, k as nat),
                last_block_id: (self.last_block_id + k) as i64,
                ..self
            }
        }
    }

    /// Filling the default schedule runs out of ids.
    pub open spec fn default_schedule_fails(self) -> bool {
        self.blocks.len() == 0 && i64::MAX - self.last_block_id < 5
    }

    /// The sort order a new block gets: one past the largest, 0 for the first.
    pub open spec fn next_sort_order(self) -> int {
        if self.blocks.len() == 0 {
            0
        } else {
            self.blocks.last().sort_order + 1
        }
    }

    /// The store after adding a block named `name` with the next id.
    pub open spec fn with_block_added(self, name: Seq<char>) -> StoreView {
        StoreView {
            blocks: self.blocks.push(
                BlockView {
                    id: (self.last_block_id + 1) as i64,
                    name: name,
                    sort_order: self.next_sort_order() as i32,
                },
            ),
            last_block_id: (self.last_block_id + 1) as i64,
            ..self
        }
    }

    /// There is a block with id `id`.
    pub open spec fn has_block(self, id: i64) -> bool {
        exists|i: int| 0 <= i < self.blocks.len() && #[trigger] self.blocks[i].id == id
    }

    /// The store after renaming block `id` to `name`.
    pub open spec fn with_block_renamed(self, id: i64, name: Seq<char>) -> StoreView {
        StoreView {
            blocks: Seq::new(
                self.blocks.len(),
                |i: int|
                    if self.blocks[i].id == id {
                        BlockView { name: name, ..self.blocks[i] }
                    } else {
                        self.blocks[i]
                    },
            ),
            ..self
        }
    }

    /// The store after removing block `id` and every sticker record of it.
    pub open spec fn without_block(self, id: i64) -> StoreView {
        StoreView {
            blocks: self.blocks.filter(keeps_block(id)),
            stickers: self.stickers.filter(keeps_record(id)),
            ..self
        }
    }

    /// The student a single-student chart shows: the one with the lowest id.
    pub open spec fn first_student(self) -> Option<StudentView> {
        if self.students.len() == 0 {
            None
        } else {
            Some(self.students[0])
        }
    }

    /// The store after adding the default student when there is none.
    pub open spec fn with_default_student(self) -> StoreView {
        if self.students.len() > 0 {
            self
        } else {
            StoreView {
                students: self.students.push(
                    StudentView {
                        id: (self.last_student_id + 1) as i64,
                        name: "Luka"@,
                        goal: 15,
                    },
                ),
                last_student_id: (self.last_student_id + 1) as i64,
                ..self
            }
        }
    }

    /// The store after setting the name and goal of student `id`.
    pub open spec fn with_student_updated(self, id: i64, name: Seq<char>, goal: i32) -> StoreView {
        StoreView {
            students: Seq::new(
                self.students.len(),
                |i: int|
                    if self.students[i].id == id {
                        StudentView { id: id, name: name, goal: goal }
                    } else {
                        self.students[i]
                    },
            ),
            ..self
        }
    }
}


/// A prefix of the records holds no more of a day's stickers than the whole.
proof fn lemma_day_total_prefix(recs: Seq<StickerView>, d: Seq<char>, n: int)
    requires
        0 <= n <= recs.len(),
    ensures
        0 <= day_total(recs.take(n), d) <= day_total(recs, d),
    decreases recs.len(),
{
    if n == recs.len() {
        assert(recs.take(n) =~= recs);
        lemma_day_total_nonneg(recs, d);
    } else {
        lemma_day_total_prefix(recs.drop_last(), d, n);
        assert(recs.drop_last().take(n) =~= recs.take(n));
    }
}

/// A day's total is never negative.
proof fn lemma_day_total_nonneg(recs: Seq<StickerView>, d: Seq<char>)
    ensures
        0 <= day_total(recs, d),
    decreases recs.len(),
{
    if recs.len() > 0 {
        lemma_day_total_nonneg(recs.drop_last(), d);
    }
}

/// Every element that filtering keeps comes from the filtered sequence.
proof fn lemma_filter_from<A>(s: Seq<A>, pred: spec_fn(A) -> bool)
    ensures
        forall|i: int|
            0 <= i < s.filter(pred).len() ==> exists|k: int|
                0 <= k < s.len() && #[trigger] s.filter(pred)[i] == s[k] && pred(s[k]),
    decreases s.len(),
{
    reveal(Seq::filter);
    if s.len() > 0 {
        let t = s.drop_last();
        lemma_filter_from(t, pred);
        assert forall|i: int| 0 <= i < s.filter(pred).len() implies exists|k: int|
            0 <= k < s.len() && #[trigger] s.filter(pred)[i] == s[k] && pred(s[k]) by {
            if i < t.filter(pred).len() {
                let k = choose|k: int| 0 <= k < t.len() && t.filter(pred)[i] == t[k] && pred(t[k]);
                assert(s[k] == t[k]);
            } else {
                assert(s.filter(pred)[i] == s[s.len() - 1]);
            }
        }
    }
}

/// Filtering keeps the order of what it keeps: a relation that holds of every
/// earlier-later pair of the sequence holds of every such pair of the result.
proof fn lemma_filter_pairwise<A>(s: Seq<A>, pred: spec_fn(A) -> bool, p: spec_fn(A, A) -> bool)
    requires
        forall|i: int, j: int| #![trigger s[i], s[j]] 0 <= i < j < s.len() ==> p(s[i], s[j]),
    ensures
        forall|i: int, j: int|
            #![trigger s.filter(pred)[i], s.filter(pred)[j]]
            0 <= i < j < s.filter(pred).len() ==> p(s.filter(pred)[i], s.filter(pred)[j]),
    decreases s.len(),
{
    reveal(Seq::filter);
    if s.len() > 0 {
        let t = s.drop_last();
        assert forall|i: int, j: int| #![trigger t[i], t[j]] 0 <= i < j < t.len() implies p(t[i], t[j]) by {
            assert(t[i] == s[i] && t[j] == s[j]);
        }
        lemma_filter_pairwise(t, pred, p);
        lemma_filter_from(t, pred);
        let f = s.filter(pred);
        let g = t.filter(pred);
        assert forall|i: int, j: int| #![trigger f[i], f[j]] 0 <= i < j < f.len() implies p(f[i], f[j]) by {
            if j < g.len() {
                assert(f[i] == g[i] && f[j] == g[j]);
            } else {
                assert(f[i] == g[i]);
                let k = choose|k: int| 0 <= k < t.len() && #[trigger] g[i] == t[k] && pred(t[k]);
                assert(f[j] == s[s.len() - 1]);
                assert(s[k] == t[k]);
                assert(p(s[k], s[s.len() - 1]));
            }
        }
    }
}

/// The name of the `i`-th default block.
fn default_block_name(i: usize) -> (r: &'static str)
    requires
        i < 5,
    ensures
        r@ == default_block_names()[i as int],
{
    if i == 0 {
        "Cultural Arts"
    } else if i == 1 {
        "Community Circle"
    } else if i == 2 {
        "Math"
    } else if i == 3 {
        "Recess"
    } else {
        "Lunch"
    }
}

/// The view of an optional sticker record.
pub open spec fn opt_record_view(o: Option<t121>) -> Option<StickerView> {
    match o {
        Some(r) => Some(r@),
        None => None,
    }
}

/// The view of an optional student.
pub open spec fn opt_student_view(o: Option<t122>) -> Option<StudentView> {
    match o {
        Some(s) => Some(s@),
        None => None,
    }
}

/// The view of a block paired with its optional record.
pub open spec fn day_entry_view(e: (t120, Option<t121>)) -> (BlockView, Option<StickerView>) {
    (e.0@, opt_record_view(e.1))
}

/// The views of a sequence of blocks.
pub open spec fn block_views(v: Seq<t120>) -> Seq<BlockView> {
    v.map_values(|b: t120| b@)
}

/// The views of a sequence of sticker records.
pub open spec fn record_views(v: Seq<t121>) -> Seq<StickerView> {
    v.map_values(|r: t121| r@)
}

/// The views of a sequence of students.
pub open spec fn student_views(v: Seq<t122>) -> Seq<StudentView> {
    v.map_values(|s: t122| s@)
}

/// The views of a sequence of blocks paired with their optional records.
pub open spec fn day_entry_views(v: Seq<(t120, Option<t121>)>) -> Seq<(BlockView, Option<StickerView>)> {
    v.map_values(|e: (t120, Option<t121>)| day_entry_view(e))
}

/// The store state that the given rows make up.
pub open spec fn rows_view(
    students: Seq<t122>,
    blocks: Seq<t120>,
    stickers: Seq<t121>,
    last_student_id: i64,
    last_block_id: i64,
) -> StoreView {
    StoreView {
        students: student_views(students),
        blocks: block_views(blocks),
        stickers: record_views(stickers),
        last_student_id: last_student_id,
        last_block_id: last_block_id,
    }
}

/// t123: the sticker store.
pub struct t123 {
    students: Vec<t122>,
    blocks: Vec<t120>,
    stickers: Vec<t121>,
    last_student_id: i64,
    last_block_id: i64,
}

impl View for t123 {
    type V = StoreView;

    closed spec fn view(&self) -> StoreView {
        StoreView {
            students: student_views(self.students@),
            blocks: block_views(self.blocks@),
            stickers: record_views(self.stickers@),
            last_student_id: self.last_student_id,
            last_block_id: self.last_block_id,
        }
    }
}

impl t123 {
    /// An empty store.
    pub fn new() -> (r: t123)
        ensures
            r@ == StoreView::empty(),
            r@.valid(),
    {
        let r = t123 {
            students: Vec::new(),
            blocks: Vec::new(),
            stickers: Vec::new(),
            last_student_id: 0,
            last_block_id: 0,
        };
        assert(r@ =~= StoreView::empty());
        r
    }

    /// Where the record of block `b` on day `d` stands in the list, if anywhere.
    fn find_sticker(&self, b: i64, d: &str) -> (r: Option<usize>)
        requires
            self@.valid(),
        ensures
            match r {
                Some(i) => {
                    &&& i < self.stickers@.len()
                    &&& self@.has_sticker(b, d@)
                    &&& self@.sticker_index(b, d@) == i
                },
                None => !self@.has_sticker(b, d@),
            },
    {
        let mut i: usize = 0;
        while i < self.stickers.len()
            invariant
                0 <= i <= self.stickers@.len(),
                self@.valid(),
                forall|j: int|
                    0 <= j < i ==> !(#[trigger] self@.stickers[j].block_id == b
                        && self@.stickers[j].date == d@),
            decreases self.stickers@.len() - i,
        {
            if self.stickers[i].s3 == b && str_eq(self.stickers[i].s4.as_str(), d) {
                proof {
                    let v = self@;
                    assert(v.stickers[i as int].block_id == b && v.stickers[i as int].date == d@);
                    assert(v.has_sticker(b, d@));
                    let k = v.sticker_index(b, d@);
                    if k != i as int {
                        if k < i as int {
                            assert(!same_slot(v.stickers[k], v.stickers[i as int]));
                        } else {
                            assert(!same_slot(v.stickers[i as int], v.stickers[k]));
                        }
                    }
                }
                return Some(i);
            }
            i += 1;
        }
        None
    }

    /// f125: the sticker value of block `block_id` on `date`; `Zero` where none
    /// was set.
    pub fn f125(&self, block_id: i64, date: &str) -> (r: Result<t119, DbError>)
        requires
            self@.valid(),
        ensures
            r == Ok::<t119, DbError>(self@.sticker_value(block_id, date@)),
    {
        match self.find_sticker(block_id, date) {
            Some(i) => Ok(self.stickers[i].s5),
            None => Ok(t119::Zero),
        }
    }

    /// f143: the full sticker record of block `block_id` on `date`, if any.
    pub fn f143(&self, block_id: i64, date: &str) -> (r: Result<Option<t121>, DbError>)
        requires
            self@.valid(),
        ensures
            r matches Ok(o) && opt_record_view(o) == self@.sticker_record(block_id, date@),
    {
        match self.find_sticker(block_id, date) {
            Some(i) => Ok(Some(self.stickers[i].duplicate())),
            None => Ok(None),
        }
    }

    /// f136: sets the sticker of block `block_id` on `date` to `value` with
    /// `note`, replacing any record that block had that day.
    pub fn f136(&mut self, block_id: i64, date: &str, value: t119, note: Option<&str>) -> (r: Result<
        (),
        DbError,
    >)
        requires
            old(self)@.valid(),
        ensures
            final(self)@ == old(self)@.with_sticker(block_id, date@, value, opt_str_view(note)),
            final(self)@.valid(),
            r == Ok::<(), DbError>(()),
    {
        let rec = t121 { s3: block_id, s4: String::from_str(date), s5: value, s9: own_opt_str(note) };
        let ghost pre = self@;
        match self.find_sticker(block_id, date) {
            Some(i) => {
                self.stickers.set(i, rec);
                proof {
                    assert(self@.stickers =~= pre.stickers.update(i as int, rec@));
                    assert forall|a: int, b: int|
                        #![trigger self@.stickers[a], self@.stickers[b]]
                        0 <= a < b < self@.stickers.len() implies !same_slot(
                        self@.stickers[a],
                        self@.stickers[b],
                    ) by {
                        assert(same_slot(pre.stickers[i as int], rec@));
                        assert(!same_slot(pre.stickers[a], pre.stickers[b]));
                    }
                }
            },
            None => {
                self.stickers.push(rec);
                proof {
                    assert(self@.stickers =~= pre.stickers.push(rec@));
                    assert forall|a: int, b: int|
                        #![trigger self@.stickers[a], self@.stickers[b]]
                        0 <= a < b < self@.stickers.len() implies !same_slot(
                        self@.stickers[a],
                        self@.stickers[b],
                    ) by {
                        if b == pre.stickers.len() {
                            if same_slot(pre.stickers[a], rec@) {
                                assert(pre.stickers[a].block_id == block_id);
                                assert(pre.has_sticker(block_id, date@));
                            }
                        } else {
                            assert(!same_slot(pre.stickers[a], pre.stickers[b]));
                        }
                    }
                }
            },
        }
        assert(self@ =~= pre.with_sticker(block_id, date@, value, opt_str_view(note)));
        Ok(())
    }

    /// f126: sets the sticker of block `block_id` on `date` to `value`, with no note.
    pub fn f126(&mut self, block_id: i64, date: &str, value: t119) -> (r: Result<(), DbError>)
        requires
            old(self)@.valid(),
        ensures
            final(self)@ == old(self)@.with_sticker(block_id, date@, value, None),
            final(self)@.valid(),
            r == Ok::<(), DbError>(()),
    {
        self.f136(block_id, date, value, None)
    }

    /// f146: removes the sticker record of block `block_id` on `date` (undo);
    /// tells whether there was one.
    pub fn f146(&mut self, block_id: i64, date: &str) -> (r: Result<bool, DbError>)
        requires
            old(self)@.valid(),
        ensures
            final(self)@ == old(self)@.without_sticker(block_id, date@),
            final(self)@.valid(),
            r == Ok::<bool, DbError>(old(self)@.has_sticker(block_id, date@)),
    {
        let ghost pre = self@;
        match self.find_sticker(block_id, date) {
            Some(i) => {
                self.stickers.remove(i);
                proof {
                    assert(self@.stickers =~= pre.stickers.remove(i as int));
                    assert forall|a: int, b: int|
                        #![trigger self@.stickers[a], self@.stickers[b]]
                        0 <= a < b < self@.stickers.len() implies !same_slot(
                        self@.stickers[a],
                        self@.stickers[b],
                    ) by {
                        let a0 = if a < i { a } else { a + 1 };
                        let b0 = if b < i { b } else { b + 1 };
                        assert(self@.stickers[a] == pre.stickers[a0]);
                        assert(self@.stickers[b] == pre.stickers[b0]);
                        assert(!same_slot(pre.stickers[a0], pre.stickers[b0]));
                    }
                }
                assert(self@ =~= pre.without_sticker(block_id, date@));
                Ok(true)
            },
            None => {
                assert(self@ =~= pre.without_sticker(block_id, date@));
                Ok(false)
            },
        }
    }

    /// f145: the number of stickers earned on `date`, summed over all blocks.
    pub fn f145(&self, date: &str) -> (r: Result<i32, DbError>)
        requires
            self@.valid(),
        ensures
            match r {
                Ok(n) => n == self@.day_count(date@),
                Err(e) => e == DbError::OutOfRange && self@.day_count(date@) > i32::MAX,
            },
    {
        let ghost recs = self@.stickers;
        let mut total: i64 = 0;
        let mut i: usize = 0;
        while i < self.stickers.len()
            invariant
                0 <= i <= self.stickers@.len(),
                recs == self@.stickers,
                total == day_total(recs.take(i as int), date@),
                0 <= total <= i32::MAX,
            decreases self.stickers@.len() - i,
        {
            assert(recs.take(i as int + 1).drop_last() =~= recs.take(i as int));
            if str_eq(self.stickers[i].s4.as_str(), date) {
                total = total + self.stickers[i].s5.stored() as i64;
            }
            i += 1;
            if total > i32::MAX as i64 {
                proof {
                    lemma_day_total_prefix(recs, date@, i as int);
                }
                return Err(DbError::OutOfRange);
            }
        }
        assert(recs.take(i as int) =~= recs);
        Ok(total as i32)
    }

    /// f124: the schedule blocks in list order (by sort order).
    pub fn f124(&self) -> (r: Result<Vec<t120>, DbError>)
        requires
            self@.valid(),
        ensures
            r matches Ok(v) && block_views(v@) == self@.blocks,
    {
        let mut out: Vec<t120> = Vec::new();
        let mut i: usize = 0;
        while i < self.blocks.len()
            invariant
                0 <= i <= self.blocks@.len(),
                block_views(out@) == self@.blocks.take(i as int),
            decreases self.blocks@.len() - i,
        {
            let ghost prev = out@;
            let b = self.blocks[i].duplicate();
            out.push(b);
            proof {
                assert(out@ == prev.push(b));
                assert(self@.blocks.take(i as int).len() == i);
                assert(block_views(prev).len() == i);
                assert(prev.len() == i);
                assert(block_views(out@).len() == i + 1);
                assert(out@[i as int] == b);
                assert(block_views(out@)[i as int] == b@);
                assert(b@ == self.blocks@[i as int]@);
                assert(self@.blocks[i as int] == self.blocks@[i as int]@);
                assert(self@.blocks.take(i + 1)[i as int] == self@.blocks[i as int]);
                assert forall|k: int| 0 <= k < i + 1 implies block_views(out@)[k]
                    == self@.blocks.take(i + 1)[k] by {
                    if k < i {
                        assert(block_views(prev)[k] == self@.blocks.take(i as int)[k]);
                    }
                }
            }
            i += 1;
            assert(block_views(out@) =~= self@.blocks.take(i as int));
        }
        assert(self@.blocks.take(i as int) =~= self@.blocks);
        Ok(out)
    }

    /// f144: every schedule block, in list order, with its sticker record on
    /// `date` if it has one.
    pub fn f144(&self, date: &str) -> (r: Result<Vec<(t120, Option<t121>)>, DbError>)
        requires
            self@.valid(),
        ensures
            r matches Ok(v) && day_entry_views(v@)
                == self@.day_records(date@),
    {
        let mut out: Vec<(t120, Option<t121>)> = Vec::new();
        let mut i: usize = 0;
        while i < self.blocks.len()
            invariant
                0 <= i <= self.blocks@.len(),
                self@.valid(),
                day_entry_views(out@)
                    == self@.day_records(date@).take(i as int),
            decreases self.blocks@.len() - i,
        {
            let block = self.blocks[i].duplicate();
            let record = match self.f143(block.s0, date) {
                Ok(o) => o,
                Err(e) => {
                    return Err(e);
                },
            };
            let ghost prev = out@;
            let ghost bv = self@.blocks[i as int];
            out.push((block, record));
            proof {
                assert(out@ == prev.push((block, record)));
                assert(self@.day_records(date@).take(i as int).len() == i);
                assert(day_entry_views(prev).len() == i);
                assert(prev.len() == i);
                assert(day_entry_views(out@).len() == i + 1);
                assert(self@.day_records(date@)[i as int] == (bv, self@.sticker_record(bv.id, date@)));
                assert(day_entry_view((block, record)) == (bv, self@.sticker_record(bv.id, date@)));
                assert forall|k: int| 0 <= k < i + 1 implies day_entry_views(out@)[k]
                    == self@.day_records(date@).take(i + 1)[k] by {
                    if k < i {
                        assert(day_entry_views(prev)[k] == self@.day_records(date@).take(i as int)[k]);
                    }
                }
            }
            i += 1;
            assert(day_entry_views(out@)
                =~= self@.day_records(date@).take(i as int));
        }
        assert(self@.day_records(date@).take(i as int) =~= self@.day_records(date@));
        Ok(out)
    }

    /// f123: fills an empty schedule with the default blocks, sort orders 0 to 4;
    /// leaves a schedule that has blocks as it is. Blocks are added one at a
    /// time: where the ids run out, those added stay and `Full` is returned.
    pub fn f123(&mut self) -> (r: Result<(), DbError>)
        requires
            old(self)@.valid(),
        ensures
            final(self)@ == old(self)@.with_default_schedule(),
            final(self)@.valid(),
            match r {
                Ok(()) => !old(self)@.default_schedule_fails(),
                Err(e) => e == DbError::Full && old(self)@.default_schedule_fails(),
            },
    {
        let ghost pre = self@;
        if self.blocks.len() > 0 {
            return Ok(());
        }
        let mut i: usize = 0;
        while i < 5
            invariant
                0 <= i <= 5,
                pre.valid(),
                pre == old(self)@,
                pre.blocks.len() == 0,
                i <= pre.default_blocks_room(),
                self.last_block_id == pre.last_block_id + i,
                student_views(self.students@) == pre.students,
                record_views(self.stickers@) == pre.stickers,
                self.last_student_id == pre.last_student_id,
                block_views(self.blocks@) == default_blocks(pre.last_block_id + 1, i as nat),
            decreases 5 - i,
        {
            if self.last_block_id == i64::MAX {
                assert(i as int == pre.default_blocks_room());
                assert(pre.default_schedule_fails());
                assert(self@ =~= pre.with_default_schedule());
                return Err(DbError::Full);
            }
            let ghost prev = self.blocks@;
            self.last_block_id = self.last_block_id + 1;
            let b = t120 {
                s0: self.last_block_id,
                s1: String::from_str(default_block_name(i)),
                s2: i as i32,
            };
            self.blocks.push(b);
            proof {
                assert(self.blocks@ == prev.push(b));
                assert(block_views(prev).len() == i);
                assert(b@ == default_blocks(pre.last_block_id + 1, (i + 1) as nat)[i as int]);
                assert forall|k: int| 0 <= k < i implies block_views(self.blocks@)[k]
                    == default_blocks(pre.last_block_id + 1, (i + 1) as nat)[k] by {
                    assert(block_views(prev)[k] == default_blocks(pre.last_block_id + 1, i as nat)[k]);
                }
                assert(block_views(self.blocks@) =~= default_blocks(
                    pre.last_block_id + 1,
                    (i + 1) as nat,
                ));
            }
            i += 1;
        }
        assert(self@ =~= pre.with_default_schedule());
        Ok(())
    }

    /// f153: adds a block named `name` after all others (sort order one past
    /// the largest, 0 for the first) and returns its new id.
    pub fn f153(&mut self, name: &str) -> (r: Result<i64, DbError>)
        requires
            old(self)@.valid(),
            old(self)@.next_sort_order() <= i32::MAX,
        ensures
            final(self)@.valid(),
            match r {
                Ok(id) => {
                    &&& old(self)@.last_block_id < i64::MAX
                    &&& id == old(self)@.last_block_id + 1
                    &&& final(self)@ == old(self)@.with_block_added(name@)
                },
                Err(e) => {
                    &&& e == DbError::Full
                    &&& old(self)@.last_block_id == i64::MAX
                    &&& final(self)@ == old(self)@
                },
            },
    {
        let ghost pre = self@;
        let n = self.blocks.len();
        let sort_order: i32 = if n == 0 {
            0
        } else {
            self.blocks[n - 1].s2 + 1
        };
        if self.last_block_id == i64::MAX {
            return Err(DbError::Full);
        }
        self.last_block_id = self.last_block_id + 1;
        let b = t120 { s0: self.last_block_id, s1: String::from_str(name), s2: sort_order };
        let ghost prev = self.blocks@;
        self.blocks.push(b);
        proof {
            assert(self.blocks@ == prev.push(b));
            assert(self@.blocks =~= pre.blocks.push(b@));
            assert(self@ =~= pre.with_block_added(name@));
            let v = self@;
            assert forall|i: int, j: int|
                #![trigger v.blocks[i], v.blocks[j]]
                0 <= i < j < v.blocks.len() implies v.blocks[i].id != v.blocks[j].id
                && listed_before(v.blocks[i], v.blocks[j]) by {
                if j == pre.blocks.len() {
                    if i < pre.blocks.len() - 1 {
                        assert(listed_before(pre.blocks[i], pre.blocks[pre.blocks.len() - 1]));
                    }
                    assert(1 <= pre.blocks[i].id <= pre.last_block_id);
                } else {
                    assert(listed_before(pre.blocks[i], pre.blocks[j]));
                }
            }
        }
        Ok(self.last_block_id)
    }

    /// f154: renames block `id` to `name`; other blocks, and the order, stay.
    pub fn f154(&mut self, id: i64, name: &str) -> (r: Result<(), DbError>)
        requires
            old(self)@.valid(),
        ensures
            final(self)@ == old(self)@.with_block_renamed(id, name@),
            final(self)@.valid(),
            r == Ok::<(), DbError>(()),
    {
        let ghost pre = self@;
        let ghost post = pre.with_block_renamed(id, name@);
        let mut out: Vec<t120> = Vec::new();
        let mut i: usize = 0;
        while i < self.blocks.len()
            invariant
                0 <= i <= self.blocks@.len(),
                pre == self@,
                post == pre.with_block_renamed(id, name@),
                block_views(out@) == post.blocks.take(i as int),
            decreases self.blocks@.len() - i,
        {
            let b = if self.blocks[i].s0 == id {
                t120 { s0: id, s1: String::from_str(name), s2: self.blocks[i].s2 }
            } else {
                self.blocks[i].duplicate()
            };
            let ghost prev = out@;
            out.push(b);
            proof {
                assert(out@ == prev.push(b));
                assert(block_views(prev).len() == i);
                assert(post.blocks.take(i as int).len() == i);
                assert(block_views(out@) =~= post.blocks.take(i + 1));
            }
            i += 1;
        }
        assert(post.blocks.take(i as int) =~= post.blocks);
        self.blocks = out;
        assert(self@ =~= post);
        proof {
            let v = self@;
            assert forall|a: int, b: int|
                #![trigger v.blocks[a], v.blocks[b]]
                0 <= a < b < v.blocks.len() implies v.blocks[a].id != v.blocks[b].id
                && listed_before(v.blocks[a], v.blocks[b]) by {
                assert(pre.blocks[a].id != pre.blocks[b].id && listed_before(pre.blocks[a], pre.blocks[b]));
            }
            assert forall|a: int| 0 <= a < v.blocks.len() implies 1 <= #[trigger] v.blocks[a].id
                <= v.last_block_id by {
                assert(1 <= pre.blocks[a].id);
            }
        }
        Ok(())
    }

    /// f155: removes block `id` and every sticker record of it; tells whether
    /// there was such a block.
    pub fn f155(&mut self, id: i64) -> (r: Result<bool, DbError>)
        requires
            old(self)@.valid(),
        ensures
            final(self)@ == old(self)@.without_block(id),
            final(self)@.valid(),
            r == Ok::<bool, DbError>(old(self)@.has_block(id)),
    {
        let ghost pre = self@;
        let mut kept_records: Vec<t121> = Vec::new();
        let mut i: usize = 0;
        while i < self.stickers.len()
            invariant
                0 <= i <= self.stickers@.len(),
                pre == self@,
                record_views(kept_records@) == pre.stickers.take(i as int).filter(keeps_record(id)),
            decreases self.stickers@.len() - i,
        {
            proof {
                reveal_with_fuel(Seq::filter, 1);
                assert(pre.stickers.take(i + 1).drop_last() =~= pre.stickers.take(i as int));
            }
            if self.stickers[i].s3 != id {
                let ghost prev = kept_records@;
                let r = self.stickers[i].duplicate();
                kept_records.push(r);
                proof {
                    assert(kept_records@ == prev.push(r));
                    assert(record_views(kept_records@) =~= record_views(prev).push(r@));
                }
            }
            i += 1;
        }
        assert(pre.stickers.take(i as int) =~= pre.stickers);
        let mut kept_blocks: Vec<t120> = Vec::new();
        let mut found = false;
        let mut j: usize = 0;
        while j < self.blocks.len()
            invariant
                0 <= j <= self.blocks@.len(),
                pre == self@,
                block_views(kept_blocks@) == pre.blocks.take(j as int).filter(keeps_block(id)),
                found == exists|k: int| 0 <= k < j && #[trigger] pre.blocks[k].id == id,
            decreases self.blocks@.len() - j,
        {
            proof {
                reveal_with_fuel(Seq::filter, 1);
                assert(pre.blocks.take(j + 1).drop_last() =~= pre.blocks.take(j as int));
            }
            assert(self.blocks@[j as int]@ == pre.blocks[j as int]);
            if self.blocks[j].s0 != id {
                let ghost prev = kept_blocks@;
                let b = self.blocks[j].duplicate();
                kept_blocks.push(b);
                proof {
                    assert(kept_blocks@ == prev.push(b));
                    assert(block_views(kept_blocks@) =~= block_views(prev).push(b@));
                }
            } else {
                assert(pre.blocks[j as int].id == id);
                found = true;
            }
            j += 1;
        }
        assert(pre.blocks.take(j as int) =~= pre.blocks);
        self.stickers = kept_records;
        self.blocks = kept_blocks;
        assert(self@ =~= pre.without_block(id));
        proof {
            let v = self@;
            lemma_filter_pairwise(
                pre.blocks,
                keeps_block(id),
                |a: BlockView, b: BlockView| a.id != b.id && listed_before(a, b),
            );
            lemma_filter_from(pre.blocks, keeps_block(id));
            lemma_filter_pairwise(
                pre.stickers,
                keeps_record(id),
                |a: StickerView, b: StickerView| !same_slot(a, b),
            );
            assert forall|a: int| 0 <= a < v.blocks.len() implies 1 <= #[trigger] v.blocks[a].id
                <= v.last_block_id by {
                assert(v.blocks[a] == pre.blocks.filter(keeps_block(id))[a]);
                let k = choose|k: int|
                    0 <= k < pre.blocks.len() && #[trigger] pre.blocks.filter(keeps_block(id))[a]
                        == pre.blocks[k] && keeps_block(id)(pre.blocks[k]);
                assert(1 <= pre.blocks[k].id <= pre.last_block_id);
            }
        }
        Ok(found)
    }

    /// f140: adds the default student (Luka, goal 15) when there is none.
    pub fn f140(&mut self) -> (r: Result<(), DbError>)
        requires
            old(self)@.valid(),
        ensures
            final(self)@.valid(),
            match r {
                Ok(()) => {
                    &&& !(old(self)@.students.len() == 0 && old(self)@.last_student_id == i64::MAX)
                    &&& final(self)@ == old(self)@.with_default_student()
                },
                Err(e) => {
                    &&& e == DbError::Full
                    &&& old(self)@.students.len() == 0
                    &&& old(self)@.last_student_id == i64::MAX
                    &&& final(self)@ == old(self)@
                },
            },
    {
        let ghost pre = self@;
        if self.students.len() > 0 {
            return Ok(());
        }
        if self.last_student_id == i64::MAX {
            return Err(DbError::Full);
        }
        self.last_student_id = self.last_student_id + 1;
        let s = t122 { s6: self.last_student_id, s7: String::from_str("Luka"), s8: 15 };
        let ghost prev = self.students@;
        self.students.push(s);
        proof {
            assert(self.students@ == prev.push(s));
            assert(self@.students =~= pre.students.push(s@));
        }
        assert(self@ =~= pre.with_default_student());
        Ok(())
    }

    /// f141: the student of a single-student chart (the one added first), if any.
    pub fn f141(&self) -> (r: Result<Option<t122>, DbError>)
        requires
            self@.valid(),
        ensures
            r matches Ok(o) && opt_student_view(o) == self@.first_student(),
    {
        if self.students.len() == 0 {
            Ok(None)
        } else {
            Ok(Some(self.students[0].duplicate()))
        }
    }

    /// f152: sets the name and goal of student `id`.
    pub fn f152(&mut self, id: i64, name: &str, goal: i32) -> (r: Result<(), DbError>)
        requires
            old(self)@.valid(),
        ensures
            final(self)@ == old(self)@.with_student_updated(id, name@, goal),
            final(self)@.valid(),
            r == Ok::<(), DbError>(()),
    {
        let ghost pre = self@;
        let ghost post = pre.with_student_updated(id, name@, goal);
        let mut out: Vec<t122> = Vec::new();
        let mut i: usize = 0;
        while i < self.students.len()
            invariant
                0 <= i <= self.students@.len(),
                pre == self@,
                post == pre.with_student_updated(id, name@, goal),
                student_views(out@) == post.students.take(i as int),
            decreases self.students@.len() - i,
        {
            let s = if self.students[i].s6 == id {
                t122 { s6: id, s7: String::from_str(name), s8: goal }
            } else {
                self.students[i].duplicate()
            };
            let ghost prev = out@;
            out.push(s);
            proof {
                assert(out@ == prev.push(s));
                assert(student_views(prev).len() == i);
                assert(post.students.take(i as int).len() == i);
                assert(student_views(out@) =~= post.students.take(i + 1));
            }
            i += 1;
        }
        assert(post.students.take(i as int) =~= post.students);
        self.students = out;
        assert(self@ =~= post);
        proof {
            let v = self@;
            assert forall|a: int, b: int|
                #![trigger v.students[a], v.students[b]]
                0 <= a < b < v.students.len() implies v.students[a].id < v.students[b].id by {
                assert(pre.students[a].id < pre.students[b].id);
            }
            assert forall|a: int| 0 <= a < v.students.len() implies 1 <= #[trigger] v.students[a].id
                <= v.last_student_id by {
                assert(1 <= pre.students[a].id);
            }
        }
        Ok(())
    }

    /// f127: the sticker value of block `block_id` today (a day of the calendar
    /// that the local clock gives).
    pub fn f127(&self, block_id: i64) -> (r: Result<t119, DbError>)
        requires
            self@.valid(),
        ensures
            exists|d: Seq<char>|
                is_day_text(d) && r == Ok::<t119, DbError>(#[trigger] self@.sticker_value(block_id, d)),
    {
        let date = today();
        self.f125(block_id, date.as_str())
    }

    /// set_sticker_today: sets the sticker of block `block_id` today, with no note.
    pub fn set_sticker_today(&mut self, block_id: i64, value: t119) -> (r: Result<(), DbError>)
        requires
            old(self)@.valid(),
        ensures
            exists|d: Seq<char>|
                is_day_text(d) && final(self)@ == #[trigger] old(self)@.with_sticker(block_id, d, value, None),
            final(self)@.valid(),
            r == Ok::<(), DbError>(()),
    {
        self.f135(block_id, value, None)
    }

    /// f135: sets the sticker of block `block_id` today, with `note`.
    pub fn f135(&mut self, block_id: i64, value: t119, note: Option<&str>) -> (r: Result<
        (),
        DbError,
    >)
        requires
            old(self)@.valid(),
        ensures
            exists|d: Seq<char>|
                is_day_text(d) && final(self)@ == #[trigger] old(self)@.with_sticker(
                    block_id,
                    d,
                    value,
                    opt_str_view(note),
                ),
            final(self)@.valid(),
            r == Ok::<(), DbError>(()),
    {
        let date = today();
        self.f136(block_id, date.as_str(), value, note)
    }

    /// f142: the number of stickers earned today, summed over all blocks.
    pub fn f142(&self) -> (r: Result<i32, DbError>)
        requires
            self@.valid(),
        ensures
            exists|d: Seq<char>|
                is_day_text(d) && match r {
                    Ok(n) => n == #[trigger] self@.day_count(d),
                    Err(e) => e == DbError::OutOfRange && self@.day_count(d) > i32::MAX,
                },
    {
        let date = today();
        self.f145(date.as_str())
    }

    /// Everything the store holds, to be written elsewhere: the students, the
    /// blocks in list order, the sticker records, and the last student and
    /// block ids handed out.
    pub fn rows(&self) -> (r: (Vec<t122>, Vec<t120>, Vec<t121>, i64, i64))
        ensures
            student_views(r.0@) == self@.students,
            block_views(r.1@) == self@.blocks,
            record_views(r.2@) == self@.stickers,
            r.3 == self@.last_student_id,
            r.4 == self@.last_block_id,
    {
        let mut students: Vec<t122> = Vec::new();
        let mut i: usize = 0;
        while i < self.students.len()
            invariant
                0 <= i <= self.students@.len(),
                student_views(students@) == self@.students.take(i as int),
            decreases self.students@.len() - i,
        {
            let ghost prev = students@;
            let x = self.students[i].duplicate();
            students.push(x);
            assert(students@ == prev.push(x));
            assert(student_views(prev).len() == i);
            assert(student_views(students@) =~= self@.students.take(i + 1));
            i += 1;
        }
        assert(self@.students.take(i as int) =~= self@.students);
        let mut blocks: Vec<t120> = Vec::new();
        let mut j: usize = 0;
        while j < self.blocks.len()
            invariant
                0 <= j <= self.blocks@.len(),
                block_views(blocks@) == self@.blocks.take(j as int),
            decreases self.blocks@.len() - j,
        {
            let ghost prev = blocks@;
            let x = self.blocks[j].duplicate();
            blocks.push(x);
            assert(blocks@ == prev.push(x));
            assert(block_views(prev).len() == j);
            assert(block_views(blocks@) =~= self@.blocks.take(j + 1));
            j += 1;
        }
        assert(self@.blocks.take(j as int) =~= self@.blocks);
        let mut records: Vec<t121> = Vec::new();
        let mut k: usize = 0;
        while k < self.stickers.len()
            invariant
                0 <= k <= self.stickers@.len(),
                record_views(records@) == self@.stickers.take(k as int),
            decreases self.stickers@.len() - k,
        {
            let ghost prev = records@;
            let x = self.stickers[k].duplicate();
            records.push(x);
            assert(records@ == prev.push(x));
            assert(record_views(prev).len() == k);
            assert(record_views(records@) =~= self@.stickers.take(k + 1));
            k += 1;
        }
        assert(self@.stickers.take(k as int) =~= self@.stickers);
        (students, blocks, records, self.last_student_id, self.last_block_id)
    }

    /// A store holding the given rows, where they keep the store's rules:
    /// students by increasing id, blocks in list order with distinct ids, at
    /// most one record per block and day, every id between 1 and the last one
    /// handed out. `None` where they do not.
    pub fn from_rows(
        students: Vec<t122>,
        blocks: Vec<t120>,
        stickers: Vec<t121>,
        last_student_id: i64,
        last_block_id: i64,
    ) -> (r: Option<t123>)
        ensures
            match r {
                Some(t) => {
                    &&& t@ == rows_view(students@, blocks@, stickers@, last_student_id, last_block_id)
                    &&& t@.valid()
                },
                None => !rows_view(students@, blocks@, stickers@, last_student_id, last_block_id).valid(),
            },
    {
        let ghost v = rows_view(students@, blocks@, stickers@, last_student_id, last_block_id);
        if last_student_id < 0 || last_block_id < 0 {
            return None;
        }
        let mut i: usize = 0;
        while i < students.len()
            invariant
                0 <= i <= students@.len(),
                v == rows_view(students@, blocks@, stickers@, last_student_id, last_block_id),
                forall|a: int| 0 <= a < i ==> 1 <= #[trigger] v.students[a].id <= v.last_student_id,
                forall|a: int, b: int|
                    #![trigger v.students[a], v.students[b]]
                    0 <= a < b < i ==> v.students[a].id < v.students[b].id,
            decreases students@.len() - i,
        {
            let id = students[i].s6;
            if id < 1 || id > last_student_id {
                assert(!(1 <= v.students[i as int].id <= v.last_student_id));
                assert(!v.valid());
                return None;
            }
            if i > 0 && students[i - 1].s6 >= id {
                assert(!(v.students[i - 1].id < v.students[i as int].id));
                assert(!v.valid());
                return None;
            }
            proof {
                assert forall|a: int, b: int|
                    #![trigger v.students[a], v.students[b]]
                    0 <= a < b < i + 1 implies v.students[a].id < v.students[b].id by {
                    if b == i && a < i - 1 {
                        assert(v.students[a].id < v.students[i - 1].id);
                    }
                }
            }
            i += 1;
        }
        let mut j: usize = 0;
        while j < blocks.len()
            invariant
                0 <= j <= blocks@.len(),
                v == rows_view(students@, blocks@, stickers@, last_student_id, last_block_id),
                forall|a: int| 0 <= a < j ==> 1 <= #[trigger] v.blocks[a].id <= v.last_block_id,
                forall|a: int, b: int|
                    #![trigger v.blocks[a], v.blocks[b]]
                    0 <= a < b < j ==> v.blocks[a].id != v.blocks[b].id && listed_before(
                        v.blocks[a],
                        v.blocks[b],
                    ),
            decreases blocks@.len() - j,
        {
            let id = blocks[j].s0;
            if id < 1 || id > last_block_id {
                assert(!(1 <= v.blocks[j as int].id <= v.last_block_id));
                assert(!v.valid());
                return None;
            }
            if j > 0 {
                let p = &blocks[j - 1];
                let c = &blocks[j];
                if !(p.s2 < c.s2 || (p.s2 == c.s2 && p.s0 < c.s0)) {
                    assert(!listed_before(v.blocks[j - 1], v.blocks[j as int]));
                    assert(!v.valid());
                    return None;
                }
            }
            let mut k: usize = 0;
            while k < j
                invariant
                    0 <= k <= j,
                    j < blocks@.len(),
                    v == rows_view(students@, blocks@, stickers@, last_student_id, last_block_id),
                    id == v.blocks[j as int].id,
                    forall|a: int| 0 <= a < k ==> #[trigger] v.blocks[a].id != v.blocks[j as int].id,
                decreases j - k,
            {
                if blocks[k].s0 == id {
                    assert(v.blocks[k as int].id == v.blocks[j as int].id);
                    assert(!v.valid());
                    return None;
                }
                k += 1;
            }
            proof {
                assert forall|a: int, b: int|
                    #![trigger v.blocks[a], v.blocks[b]]
                    0 <= a < b < j + 1 implies v.blocks[a].id != v.blocks[b].id && listed_before(
                        v.blocks[a],
                        v.blocks[b],
                    ) by {
                    if b == j && a < j - 1 {
                        assert(listed_before(v.blocks[a], v.blocks[j - 1]));
                    }
                }
            }
            j += 1;
        }
        let mut m: usize = 0;
        while m < stickers.len()
            invariant
                0 <= m <= stickers@.len(),
                v == rows_view(students@, blocks@, stickers@, last_student_id, last_block_id),
                forall|a: int, b: int|
                    #![trigger v.stickers[a], v.stickers[b]]
                    0 <= a < b < m ==> !same_slot(v.stickers[a], v.stickers[b]),
            decreases stickers@.len() - m,
        {
            let mut k: usize = 0;
            while k < m
                invariant
                    0 <= k <= m,
                    m < stickers@.len(),
                    v == rows_view(students@, blocks@, stickers@, last_student_id, last_block_id),
                    forall|a: int| 0 <= a < k ==> !same_slot(#[trigger] v.stickers[a], v.stickers[m as int]),
                decreases m - k,
            {
                if stickers[k].s3 == stickers[m].s3 && str_eq(
                    stickers[k].s4.as_str(),
                    stickers[m].s4.as_str(),
                ) {
                    assert(same_slot(v.stickers[k as int], v.stickers[m as int]));
                    assert(!v.valid());
                    return None;
                }
                k += 1;
            }
            m += 1;
        }
        let t = t123 { students, blocks, stickers, last_student_id, last_block_id };
        assert(t@ =~= v);
        Some(t)
    }
}

} // verus!
