//! Scoring dictated observations: a sticker value and behaviour tags from the
//! words of a transcription.
use vstd::prelude::*;
use vstd::string::*;
use crate::db::t119;
use crate::text::{all_ascii, ascii_lowercase, chars_of, contains_str, has_sub, lowercase,
    string_views, to_lowercase, trim_text, trimmed};

verus! {

/// Words that earn two stickers.
pub open spec fn praises_great(lower: Seq<char>) -> bool {
    has_sub(lower, "great"@) || has_sub(lower, "excellent"@) || has_sub(lower, "awesome"@)
        || has_sub(lower, "perfect"@)
}

/// Words that earn one sticker.
pub open spec fn praises_good(lower: Seq<char>) -> bool {
    has_sub(lower, "good"@) || has_sub(lower, "ok"@) || has_sub(lower, "okay"@) || has_sub(
        lower,
        "fine"@,
    ) || has_sub(lower, "did well"@) || has_sub(lower, "acceptable"@)
}

/// The sticker value a lowercased observation earns: `Two` for great words,
/// else `One` for good words, else `Zero`. The first group that matches wins.
pub open spec fn sticker_for(lower: Seq<char>) -> t119 {
    if praises_great(lower) {
        t119::Two
    } else if praises_good(lower) {
        t119::One
    } else {
        t119::Zero
    }
}

/// The phrases looked for in an observation, each with the tag it gives, in
/// the order the tags are reported.
pub open spec fn tag_rules() -> Seq<(Seq<char>, Seq<char>)> {
    seq![
        ("elopement"@, "elopement"@),
        ("refus"@, "refusal"@),
        ("combative"@, "combative"@),
        ("stay in"@, "stay_in_space"@),
        ("finish"@, "finish_work"@),
        ("great"@, "positive"@),
        ("excellent"@, "positive"@),
    ]
}

/// The tags that `rules` give a lowercased observation, one per phrase found,
/// in rule order.
pub open spec fn tags_from(lower: Seq<char>, rules: Seq<(Seq<char>, Seq<char>)>) -> Seq<Seq<char>>
    decreases rules.len(),
{
    if rules.len() == 0 {
        Seq::empty()
    } else {
        tags_from(lower, rules.drop_last()) + if has_sub(lower, rules.last().0) {
            seq![rules.last().1]
        } else {
            Seq::empty()
        }
    }
}

/// The tags of a lowercased observation.
pub open spec fn tags_for(lower: Seq<char>) -> Seq<Seq<char>> {
    tags_from(lower, tag_rules())
}

/// The `i`-th tag rule: the phrase and its tag.
fn tag_rule(i: usize) -> (r: (&'static str, &'static str))
    requires
        i < 7,
    ensures
        (r.0@, r.1@) == tag_rules()[i as int],
{
    if i == 0 {
        ("elopement", "elopement")
    } else if i == 1 {
        ("refus", "refusal")
    } else if i == 2 {
        ("combative", "combative")
    } else if i == 3 {
        ("stay in", "stay_in_space")
    } else if i == 4 {
        ("finish", "finish_work")
    } else if i == 5 {
        ("great", "positive")
    } else {
        ("excellent", "positive")
    }
}

/// The sticker value that an already lowercased observation earns.
pub fn sticker_from_lowered(lower: &str) -> (r: t119)
    ensures
        r == sticker_for(lower@),
{
    let chars = chars_of(lower);
    if contains_str(&chars, "great") || contains_str(&chars, "excellent") || contains_str(
        &chars,
        "awesome",
    ) || contains_str(&chars, "perfect") {
        return t119::Two;
    }
    if contains_str(&chars, "good") || contains_str(&chars, "ok") || contains_str(&chars, "okay")
        || contains_str(&chars, "fine") || contains_str(&chars, "did well") || contains_str(
        &chars,
        "acceptable",
    ) {
        return t119::One;
    }
    if contains_str(&chars, "refus") || contains_str(&chars, "elopement") || contains_str(
        &chars,
        "combative",
    ) || contains_str(&chars, "no work") || contains_str(&chars, "didn't") {
        return t119::Zero;
    }
    t119::Zero
}

/// The tags of an already lowercased observation.
pub fn tags_from_lowered(lower: &str) -> (r: Vec<String>)
    ensures
        string_views(r@) == tags_for(lower@),
{
    let chars = chars_of(lower);
    let mut tags: Vec<String> = Vec::new();
    let mut i: usize = 0;
    while i < 7
        invariant
            0 <= i <= 7,
            chars@ == lower@,
            string_views(tags@) == tags_from(lower@, tag_rules().take(i as int)),
        decreases 7 - i,
    {
        let (phrase, tag) = tag_rule(i);
        assert(tag_rules().take(i + 1).drop_last() =~= tag_rules().take(i as int));
        if contains_str(&chars, phrase) {
            let ghost prev = tags@;
            let t = String::from_str(tag);
            tags.push(t);
            assert(tags@ == prev.push(t));
            assert(string_views(tags@) =~= string_views(prev).push(t@));
        }
        i += 1;
        assert(string_views(tags@) =~= tags_from(lower@, tag_rules().take(i as int)));
    }
    assert(tag_rules().take(7) =~= tag_rules());
    tags
}

/// f120: the sticker value a dictated observation earns. Case does not matter:
/// "great", "excellent", "awesome" or "perfect" earn `Two`; else "good", "ok",
/// "okay", "fine", "did well" or "acceptable" earn `One`; anything else `Zero`.
pub fn f120(text: &str) -> (r: t119)
    ensures
        r == sticker_for(lowercase(text@)),
        all_ascii(text@) ==> r == sticker_for(ascii_lowercase(text@)),
{
    let lower = to_lowercase(text);
    sticker_from_lowered(lower.as_str())
}

/// f138: the behaviour tags of a dictated observation, case not mattering.
fn f138(text: &str) -> (r: Vec<String>)
    ensures
        string_views(r@) == tags_for(lowercase(text@)),
        all_ascii(text@) ==> string_views(r@) == tags_for(ascii_lowercase(text@)),
{
    let lower = to_lowercase(text);
    tags_from_lowered(lower.as_str())
}

/// t124: what an observation yields. `s10` = score, `s11` = note, `s12` = tags.
#[derive(Debug, Clone)]
pub struct t124 {
    pub s10: t119,
    pub s11: String,
    pub s12: Vec<String>,
}

impl Default for t124 {
    /// No observation: score `Zero`, no note, no tags.
    fn default() -> (r: t124)
        ensures
            r.s10 == t119::Zero,
            r.s11@ == Seq::<char>::empty(),
            r.s12@ == Seq::<String>::empty(),
    {
        t124 { s10: t119::Zero, s11: String::new(), s12: Vec::new() }
    }
}

/// f134: the score, note and tags of a dictated observation. The note is the
/// text without leading and trailing white space.
pub fn f134(text: &str) -> (r: t124)
    ensures
        r.s10 == sticker_for(lowercase(text@)),
        r.s11@ == trimmed(text@),
        string_views(r.s12@) == tags_for(lowercase(text@)),
        all_ascii(text@) ==> r.s10 == sticker_for(ascii_lowercase(text@)) && string_views(r.s12@)
            == tags_for(ascii_lowercase(text@)),
{
    let s10 = f120(text);
    let s11 = trim_text(text);
    let s12 = f138(text);
    t124 { s10, s11, s12 }
}

/// The first group that matches wins: an observation with a great word earns
/// `Two` whatever else it says, one with a good word but no great word earns
/// `One`, and one with neither earns `Zero`, refusals included.
pub proof fn law_first_group_wins(lower: Seq<char>)
    ensures
        praises_great(lower) ==> sticker_for(lower) == t119::Two,
        !praises_great(lower) && praises_good(lower) ==> sticker_for(lower) == t119::One,
        !praises_great(lower) && !praises_good(lower) ==> sticker_for(lower) == t119::Zero,
{
}

/// `tag` is the tag of a rule whose phrase occurs in `lower`.
pub open spec fn tag_of_found_phrase(lower: Seq<char>, rules: Seq<(Seq<char>, Seq<char>)>, tag: Seq<
    char,
>) -> bool {
    exists|k: int| 0 <= k < rules.len() && has_sub(lower, rules[k].0) && tag == #[trigger] rules[k].1
}

/// The tags follow the rules: each rule whose phrase occurs gives its tag, in
/// rule order, and nothing else is tagged; so there are at most as many tags
/// as rules.
pub proof fn law_tags_follow_rules(lower: Seq<char>, rules: Seq<(Seq<char>, Seq<char>)>)
    ensures
        tags_from(lower, rules).len() <= rules.len(),
        forall|k: int|
            0 <= k < rules.len() && has_sub(lower, rules[k].0) ==> tags_from(
                lower,
                rules,
            ).contains(#[trigger] rules[k].1),
        forall|t: int|
            0 <= t < tags_from(lower, rules).len() ==> tag_of_found_phrase(
                lower,
                rules,
                #[trigger] tags_from(lower, rules)[t],
            ),
    decreases rules.len(),
{
    if rules.len() > 0 {
        let init = rules.drop_last();
        law_tags_follow_rules(lower, init);
        let prev = tags_from(lower, init);
        let cur = tags_from(lower, rules);
        let last = rules.last();
        let tail: Seq<Seq<char>> = if has_sub(lower, last.0) {
            seq![last.1]
        } else {
            Seq::empty()
        };
        assert(cur == prev + tail);
        assert forall|k: int|
            0 <= k < rules.len() && has_sub(lower, rules[k].0) implies cur.contains(
            #[trigger] rules[k].1,
        ) by {
            if k == rules.len() - 1 {
                assert(cur[prev.len() as int] == last.1);
            } else {
                assert(init[k] == rules[k]);
                assert(prev.contains(init[k].1));
                let j = choose|j: int| 0 <= j < prev.len() && prev[j] == init[k].1;
                assert(cur[j] == prev[j]);
            }
        }
        assert forall|t: int| 0 <= t < cur.len() implies tag_of_found_phrase(
            lower,
            rules,
            #[trigger] cur[t],
        ) by {
            if t < prev.len() {
                assert(cur[t] == prev[t]);
                assert(tag_of_found_phrase(lower, init, prev[t]));
                let k = choose|k: int|
                    #![trigger init[k]]
                    0 <= k < init.len() && has_sub(lower, init[k].0) && prev[t] == init[k].1;
                assert(rules[k] == init[k]);
            } else {
                assert(tail.len() > 0);
                assert(has_sub(lower, last.0));
                assert(cur[t] == last.1);
                assert(rules[rules.len() - 1] == last);
                assert(tag_of_found_phrase(lower, rules, cur[t]));
            }
        }
    } else {
        assert(tags_from(lower, rules) =~= Seq::<Seq<char>>::empty());
    }
}

/// A piece of a piece is a piece: where `mid` occurs in `big` and `small`
/// in `mid`, `small` occurs in `big`.
proof fn lemma_sub_of_sub(big: Seq<char>, mid: Seq<char>, small: Seq<char>)
    requires
        has_sub(big, mid),
        has_sub(mid, small),
    ensures
        has_sub(big, small),
{
    let i = choose|i: int| 0 <= i <= big.len() - mid.len() && #[trigger] big.subrange(i, i + mid.len()) == mid;
    let j = choose|j: int| 0 <= j <= mid.len() - small.len() && #[trigger] mid.subrange(j, j + small.len()) == small;
    assert(big.subrange(i + j, i + j + small.len()) =~= small) by {
        assert forall|k: int| 0 <= k < small.len() implies big.subrange(i + j, i + j + small.len())[k]
            == small[k] by {
            assert(mid[j + k] == big.subrange(i, i + mid.len())[j + k]);
            assert(small[k] == mid.subrange(j, j + small.len())[k]);
        }
    }
}

/// More words never lower the score: a lowercased observation that contains
/// another as a run of characters earns at least as many stickers.
pub proof fn law_containing_text_scores_no_lower(small: Seq<char>, big: Seq<char>)
    requires
        has_sub(big, small),
    ensures
        sticker_for(big).points() >= sticker_for(small).points(),
{
    if praises_great(small) {
        if has_sub(small, "great"@) {
            lemma_sub_of_sub(big, small, "great"@);
        } else if has_sub(small, "excellent"@) {
            lemma_sub_of_sub(big, small, "excellent"@);
        } else if has_sub(small, "awesome"@) {
            lemma_sub_of_sub(big, small, "awesome"@);
        } else {
            lemma_sub_of_sub(big, small, "perfect"@);
        }
    } else if praises_good(small) {
        if has_sub(small, "good"@) {
            lemma_sub_of_sub(big, small, "good"@);
        } else if has_sub(small, "ok"@) {
            lemma_sub_of_sub(big, small, "ok"@);
        } else if has_sub(small, "okay"@) {
            lemma_sub_of_sub(big, small, "okay"@);
        } else if has_sub(small, "fine"@) {
            lemma_sub_of_sub(big, small, "fine"@);
        } else if has_sub(small, "did well"@) {
            lemma_sub_of_sub(big, small, "did well"@);
        } else {
            lemma_sub_of_sub(big, small, "acceptable"@);
        }
    }
}

/// Appending text never lowers the score: the ASCII-lowered join of two
/// observations earns at least what each earns alone. For ASCII text this is
/// the score `f120` gives; a text with great words earns `Two` whatever else
/// is joined to it.
pub proof fn law_appending_never_lowers(a: Seq<char>, b: Seq<char>)
    ensures
        sticker_for(ascii_lowercase(a + b)).points() >= sticker_for(ascii_lowercase(a)).points(),
        sticker_for(ascii_lowercase(a + b)).points() >= sticker_for(ascii_lowercase(b)).points(),
        praises_great(ascii_lowercase(a)) ==> sticker_for(ascii_lowercase(a + b)) == t119::Two,
{
    let la = ascii_lowercase(a);
    let lb = ascii_lowercase(b);
    let l = ascii_lowercase(a + b);
    assert(l =~= la + lb);
    let k: int = la.len() as int;
    assert(l.subrange(0, 0 + la.len() as int) =~= la);
    assert(has_sub(l, la));
    assert(l.subrange(k, k + lb.len() as int) =~= lb);
    assert(has_sub(l, lb));
    law_containing_text_scores_no_lower(la, l);
    law_containing_text_scores_no_lower(lb, l);
}

/// The words that score: an observation (lowercased) holding "great",
/// "excellent", "awesome" or "perfect" earns `Two`; one holding none of those
/// but "good", "ok", "okay", "fine", "did well" or "acceptable" earns `One`
/// ("Ok at recess" included); one holding none of these ten earns `Zero`.
pub proof fn law_score_words(l: Seq<char>)
    ensures
        has_sub(l, "great"@) || has_sub(l, "excellent"@) || has_sub(l, "awesome"@) || has_sub(
            l,
            "perfect"@,
        ) ==> sticker_for(l) == t119::Two,
        !(has_sub(l, "great"@) || has_sub(l, "excellent"@) || has_sub(l, "awesome"@) || has_sub(
            l,
            "perfect"@,
        )) && (has_sub(l, "good"@) || has_sub(l, "ok"@) || has_sub(l, "okay"@) || has_sub(
            l,
            "fine"@,
        ) || has_sub(l, "did well"@) || has_sub(l, "acceptable"@)) ==> sticker_for(l)
            == t119::One,
        !(has_sub(l, "great"@) || has_sub(l, "excellent"@) || has_sub(l, "awesome"@) || has_sub(
            l,
            "perfect"@,
        )) && !(has_sub(l, "good"@) || has_sub(l, "ok"@) || has_sub(l, "okay"@) || has_sub(
            l,
            "fine"@,
        ) || has_sub(l, "did well"@) || has_sub(l, "acceptable"@)) ==> sticker_for(l)
            == t119::Zero,
{
}

/// The tags that phrases give: "elopement" gives `elopement`, "refus"
/// `refusal`, "combative" `combative`, "stay in" `stay_in_space`, "finish"
/// `finish_work`, and "great" or "excellent" `positive`; an observation with
/// none of these phrases has no tag.
pub proof fn law_tag_phrases(l: Seq<char>)
    ensures
        has_sub(l, "elopement"@) ==> tags_for(l).contains("elopement"@),
        has_sub(l, "refus"@) ==> tags_for(l).contains("refusal"@),
        has_sub(l, "combative"@) ==> tags_for(l).contains("combative"@),
        has_sub(l, "stay in"@) ==> tags_for(l).contains("stay_in_space"@),
        has_sub(l, "finish"@) ==> tags_for(l).contains("finish_work"@),
        has_sub(l, "great"@) || has_sub(l, "excellent"@) ==> tags_for(l).contains("positive"@),
        !has_sub(l, "elopement"@) && !has_sub(l, "refus"@) && !has_sub(l, "combative"@)
            && !has_sub(l, "stay in"@) && !has_sub(l, "finish"@) && !has_sub(l, "great"@)
            && !has_sub(l, "excellent"@) ==> tags_for(l).len() == 0,
{
    let rules = tag_rules();
    law_tags_follow_rules(l, rules);
    assert(rules[0] == ("elopement"@, "elopement"@));
    assert(rules[1] == ("refus"@, "refusal"@));
    assert(rules[2] == ("combative"@, "combative"@));
    assert(rules[3] == ("stay in"@, "stay_in_space"@));
    assert(rules[4] == ("finish"@, "finish_work"@));
    assert(rules[5] == ("great"@, "positive"@));
    assert(rules[6] == ("excellent"@, "positive"@));
    reveal_with_fuel(tags_from, 8);
    assert(rules.drop_last().drop_last().drop_last().drop_last().drop_last().drop_last().drop_last()
        =~= Seq::<(Seq<char>, Seq<char>)>::empty());
}

} // verus!
