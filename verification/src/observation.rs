//! A dictated observation, once transcribed: scoring it, saving today's
//! sticker of the selected block, and undoing the last one saved.
use vstd::prelude::*;
use crate::ai::{f134, sticker_for, tags_for};
use crate::clock::{is_day_text, today};
use crate::db::{t119, t120, t123, DbError, StoreView};
use crate::text::{lowercase, string_views, trimmed};

verus! {

/// t125: what a dictation saved. `s13` = block name, `s14` = block id,
/// `s15` = sticker value, `s16` = the words heard, `s17` = tags.
pub struct t125 {
    pub s13: String,
    pub s14: i64,
    pub s15: t119,
    pub s16: String,
    pub s17: Vec<String>,
}

/// The note saved with a dictation: the words heard without surrounding
/// white space, or none where nothing is left.
pub open spec fn dictation_note(text: Seq<char>) -> Option<Seq<char>> {
    if trimmed(text).len() == 0 {
        None
    } else {
        Some(trimmed(text))
    }
}

/// What saving the dictation `text` for block `selected` of `blocks` on day
/// `date` does, from store `pre` to store `post`, answering `r`: nothing,
/// answering `Ok(None)`, where no block is selected; else the block's sticker
/// on that day becomes the text's score, with its note, and the answer holds
/// the block's name and id, the score, the text and its tags.
pub open spec fn dictation_saved(
    pre: StoreView,
    post: StoreView,
    blocks: Seq<t120>,
    selected: int,
    text: Seq<char>,
    date: Seq<char>,
    r: Result<Option<t125>, DbError>,
) -> bool {
    if selected >= blocks.len() {
        r == Ok::<Option<t125>, DbError>(None) && post == pre
    } else {
        match r {
            Ok(Some(x)) => {
                &&& x.s13@ == blocks[selected].s1@
                &&& x.s14 == blocks[selected].s0
                &&& x.s15 == sticker_for(lowercase(text))
                &&& x.s16@ == text
                &&& string_views(x.s17@) == tags_for(lowercase(text))
                &&& post == pre.with_sticker(blocks[selected].s0, date, x.s15, dictation_note(text))
            },
            _ => false,
        }
    }
}

impl t123 {
    /// Saves the transcribed dictation `text` as the sticker of block
    /// `selected` of `blocks` on `date`: its score, with the words heard,
    /// trimmed, as the note (none where they are blank). Nothing is saved,
    /// and `Ok(None)` answered, where `selected` is past the blocks.
    pub fn record_dictation_on(&mut self, blocks: &[t120], selected: usize, text: &str, date: &str) -> (r:
        Result<Option<t125>, DbError>)
        requires
            old(self)@.valid(),
        ensures
            final(self)@.valid(),
            selected >= blocks@.len() ==> r == Ok::<Option<t125>, DbError>(None) && final(self)@ == old(
                self,
            )@,
            selected < blocks@.len() ==> (r matches Ok(Some(x)) && {
                &&& x.s13@ == blocks@[selected as int].s1@
                &&& x.s14 == blocks@[selected as int].s0
                &&& x.s15 == sticker_for(lowercase(text@))
                &&& x.s16@ == text@
                &&& string_views(x.s17@) == tags_for(lowercase(text@))
                &&& final(self)@ == old(self)@.with_sticker(
                    blocks@[selected as int].s0,
                    date@,
                    x.s15,
                    if trimmed(text@).len() == 0 {
                        None
                    } else {
                        Some(trimmed(text@))
                    },
                )
            }),
    {
        if selected >= blocks.len() {
            return Ok(None);
        }
        let result = f134(text);
        let block = &blocks[selected];
        let note = if result.s11.as_str().is_empty() {
            None
        } else {
            Some(result.s11.as_str())
        };
        match self.f136(block.s0, date, result.s10, note) {
            Ok(()) => {},
            Err(e) => {
                return Err(e);
            },
        }
        Ok(
            Some(
                t125 {
                    s13: block.s1.clone(),
                    s14: block.s0,
                    s15: result.s10,
                    s16: text.to_owned(),
                    s17: result.s12,
                },
            ),
        )
    }

    /// Saves the transcribed dictation `text` as today's sticker of block
    /// `selected` of `blocks`, as `record_dictation_on` does on the day the
    /// local clock gives.
    pub fn record_dictation(&mut self, blocks: &[t120], selected: usize, text: &str) -> (r: Result<
        Option<t125>,
        DbError,
    >)
        requires
            old(self)@.valid(),
        ensures
            final(self)@.valid(),
            exists|d: Seq<char>|
                is_day_text(d) && #[trigger] dictation_saved(
                    old(self)@,
                    final(self)@,
                    blocks@,
                    selected as int,
                    text@,
                    d,
                    r,
                ),
    {
        let ghost pre = self@;
        let date = today();
        let r = self.record_dictation_on(blocks, selected, text, date.as_str());
        assert(dictation_saved(pre, self@, blocks@, selected as int, text@, date@, r));
        r
    }

    /// Undo of the last dictation: where `last` names the block and day of
    /// the last sticker dictated, removes that sticker, and forgets `last`
    /// once a sticker was removed. Answers whether one was.
    pub fn undo_last_dictation(&mut self, last: &mut Option<(i64, String)>) -> (r: Result<bool, DbError>)
        requires
            old(self)@.valid(),
        ensures
            final(self)@.valid(),
            match *old(last) {
                None => r == Ok::<bool, DbError>(false) && final(self)@ == old(self)@ && *final(last)
                    == *old(last),
                Some((b, d)) => {
                    &&& final(self)@ == old(self)@.without_sticker(b, d@)
                    &&& r == Ok::<bool, DbError>(old(self)@.has_sticker(b, d@))
                    &&& *final(last) == if old(self)@.has_sticker(b, d@) {
                        None
                    } else {
                        *old(last)
                    }
                },
            },
    {
        let removed = match last {
            Some((b, d)) => match self.f146(*b, d.as_str()) {
                Ok(found) => found,
                Err(e) => {
                    return Err(e);
                },
            },
            None => {
                return Ok(false);
            },
        };
        if removed {
            *last = None;
        }
        Ok(removed)
    }
}

} // verus!
