use wowasticker::ai::f134;
use wowasticker::chart::today_str;
use wowasticker::db::{t119, t123};

fn chart() -> t123 {
    let mut db = t123::new();
    db.f123().unwrap();
    db
}

#[test]
fn dictation_saves_the_score_and_trimmed_note_of_the_selected_block() {
    let mut db = chart();
    let blocks = db.f124().unwrap();
    let saved = db
        .record_dictation_on(&blocks, 2, "  He did great work, finished everything  ", "2026-03-27")
        .unwrap()
        .unwrap();
    assert_eq!(saved.s13, "Math");
    assert_eq!(saved.s14, blocks[2].s0);
    assert_eq!(saved.s15, t119::Two);
    assert_eq!(saved.s16, "  He did great work, finished everything  ");
    assert_eq!(saved.s17, vec!["finish_work".to_string(), "positive".to_string()]);
    let record = db.f143(blocks[2].s0, "2026-03-27").unwrap().unwrap();
    assert_eq!(record.s5, t119::Two);
    assert_eq!(record.s9, Some("He did great work, finished everything".to_string()));
}

#[test]
fn dictation_of_blank_words_saves_no_note() {
    let mut db = chart();
    let blocks = db.f124().unwrap();
    let saved = db.record_dictation_on(&blocks, 0, " \u{3000}\t", "2026-03-27").unwrap().unwrap();
    assert_eq!(saved.s15, t119::Zero);
    assert!(saved.s17.is_empty());
    let record = db.f143(blocks[0].s0, "2026-03-27").unwrap().unwrap();
    assert_eq!(record.s5, t119::Zero);
    assert_eq!(record.s9, None);
}

#[test]
fn dictation_without_a_selected_block_saves_nothing() {
    let mut db = chart();
    let blocks = db.f124().unwrap();
    let answer = db.record_dictation_on(&blocks, blocks.len(), "great", "2026-03-27").unwrap();
    assert!(answer.is_none());
    assert_eq!(db.f145("2026-03-27").unwrap(), 0);
    assert!(db.record_dictation_on(&[], 0, "great", "2026-03-27").unwrap().is_none());
}

#[test]
fn dictation_today_lands_on_the_clock_day() {
    let mut db = chart();
    let blocks = db.f124().unwrap();
    let saved = db.record_dictation(&blocks, 1, "good job").unwrap().unwrap();
    assert_eq!(saved.s15, t119::One);
    assert_eq!(db.f125(blocks[1].s0, &today_str()).unwrap(), t119::One);
}

#[test]
fn undo_removes_the_last_dictated_sticker_once() {
    let mut db = chart();
    let blocks = db.f124().unwrap();
    let saved = db.record_dictation_on(&blocks, 1, "great", "2026-03-27").unwrap().unwrap();
    let mut last = Some((saved.s14, "2026-03-27".to_string()));
    assert!(db.undo_last_dictation(&mut last).unwrap());
    assert_eq!(last, None);
    assert_eq!(db.f143(blocks[1].s0, "2026-03-27").unwrap(), None);
    assert!(!db.undo_last_dictation(&mut last).unwrap());
    let mut stale = Some((saved.s14, "2026-03-27".to_string()));
    assert!(!db.undo_last_dictation(&mut stale).unwrap());
    assert_eq!(stale, Some((saved.s14, "2026-03-27".to_string())));
}

#[test]
fn the_note_is_trimmed_of_unicode_white_space() {
    assert_eq!(f134("\u{3000}He did great today!\u{2003}\n").s11, "He did great today!");
    assert_eq!(f134("\u{200b}x").s11, "\u{200b}x");
}
