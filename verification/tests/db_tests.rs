use wowasticker::db::{t119, t123};

fn today() -> String {
    chrono::Local::now().format("%Y-%m-%d").to_string()
}

#[test]
fn db_open_and_ensure_schedule() {
    let mut db = t123::new();
    db.f123().unwrap();
    let blocks = db.f124().unwrap();
    assert!(!blocks.is_empty());
    assert_eq!(blocks[0].s1, "Cultural Arts");
}

#[test]
fn db_set_and_get_sticker() {
    let mut db = t123::new();
    db.f123().unwrap();
    let blocks = db.f124().unwrap();
    let block_id = blocks[0].s0;
    let date = "2026-03-03";
    db.f126(block_id, date, t119::Two).unwrap();
    assert_eq!(db.f125(block_id, date).unwrap(), t119::Two);
}

#[test]
fn db_get_sticker_returns_zero_when_no_record() {
    let mut db = t123::new();
    db.f123().unwrap();
    let blocks = db.f124().unwrap();
    let block_id = blocks[0].s0;
    assert_eq!(db.f125(block_id, "2026-01-01").unwrap(), t119::Zero);
}

#[test]
fn db_ensure_default_schedule_idempotent() {
    let mut db = t123::new();
    db.f123().unwrap();
    db.f123().unwrap();
    let blocks = db.f124().unwrap();
    assert_eq!(blocks.len(), 5);
}

#[test]
fn db_set_sticker_with_note() {
    let mut db = t123::new();
    db.f123().unwrap();
    let blocks = db.f124().unwrap();
    let block_id = blocks[0].s0;
    let date = "2026-03-03";
    db.f136(block_id, date, t119::One, Some("Good focus")).unwrap();
    db.f126(block_id, date, t119::Two).unwrap();
    assert_eq!(db.f125(block_id, date).unwrap(), t119::Two);
}

#[test]
fn db_set_sticker_today_with_note() {
    let mut db = t123::new();
    db.f123().unwrap();
    let blocks = db.f124().unwrap();
    let block_id = blocks[0].s0;
    let today = today();
    db.f135(block_id, t119::Two, Some("Excellent!")).unwrap();
    assert_eq!(db.f125(block_id, &today).unwrap(), t119::Two);
}

#[test]
fn db_ensure_default_student() {
    let mut db = t123::new();
    db.f140().unwrap();
    let s = db.f141().unwrap().unwrap();
    assert_eq!(s.s7, "Luka");
    assert_eq!(s.s8, 15);
}

#[test]
fn db_ensure_default_student_idempotent() {
    let mut db = t123::new();
    db.f140().unwrap();
    db.f140().unwrap();
    let s = db.f141().unwrap().unwrap();
    assert_eq!(s.s7, "Luka");
}

#[test]
fn db_get_student_returns_none_when_empty() {
    let db = t123::new();
    assert!(db.f141().unwrap().is_none());
}

#[test]
fn db_count_stickers_today() {
    let mut db = t123::new();
    db.f123().unwrap();
    let blocks = db.f124().unwrap();
    assert_eq!(db.f142().unwrap(), 0);
    db.set_sticker_today(blocks[0].s0, t119::Two).unwrap();
    db.set_sticker_today(blocks[1].s0, t119::One).unwrap();
    assert_eq!(db.f142().unwrap(), 3);
}

#[test]
fn db_get_sticker_record_with_note() {
    let mut db = t123::new();
    db.f123().unwrap();
    let blocks = db.f124().unwrap();
    let block_id = blocks[0].s0;
    let date = "2026-03-27";
    db.f136(block_id, date, t119::Two, Some("Great focus")).unwrap();
    let rec = db.f143(block_id, date).unwrap().unwrap();
    assert_eq!(rec.s5, t119::Two);
    assert_eq!(rec.s9.as_deref(), Some("Great focus"));
}

#[test]
fn db_get_sticker_record_returns_none() {
    let mut db = t123::new();
    db.f123().unwrap();
    let blocks = db.f124().unwrap();
    assert!(db.f143(blocks[0].s0, "2026-01-01").unwrap().is_none());
}

#[test]
fn db_list_day_records() {
    let mut db = t123::new();
    db.f123().unwrap();
    let blocks = db.f124().unwrap();
    let date = "2026-03-27";
    db.f136(blocks[0].s0, date, t119::Two, Some("Great")).unwrap();
    db.f126(blocks[2].s0, date, t119::One).unwrap();
    let records = db.f144(date).unwrap();
    assert_eq!(records.len(), 5);
    assert!(records[0].1.is_some());
    assert!(records[1].1.is_none());
    assert!(records[2].1.is_some());
}

#[test]
fn db_count_stickers_for_date() {
    let mut db = t123::new();
    db.f123().unwrap();
    let blocks = db.f124().unwrap();
    let date = "2026-03-27";
    assert_eq!(db.f145(date).unwrap(), 0);
    db.f126(blocks[0].s0, date, t119::Two).unwrap();
    db.f126(blocks[1].s0, date, t119::One).unwrap();
    assert_eq!(db.f145(date).unwrap(), 3);
}

#[test]
fn db_delete_sticker() {
    let mut db = t123::new();
    db.f123().unwrap();
    let blocks = db.f124().unwrap();
    let date = "2026-03-27";
    db.f126(blocks[0].s0, date, t119::Two).unwrap();
    assert_eq!(db.f125(blocks[0].s0, date).unwrap(), t119::Two);
    assert!(db.f146(blocks[0].s0, date).unwrap());
    assert_eq!(db.f125(blocks[0].s0, date).unwrap(), t119::Zero);
}

#[test]
fn db_delete_sticker_returns_false_when_none() {
    let mut db = t123::new();
    db.f123().unwrap();
    let blocks = db.f124().unwrap();
    assert!(!db.f146(blocks[0].s0, "2026-01-01").unwrap());
}

#[test]
fn db_update_student() {
    let mut db = t123::new();
    db.f140().unwrap();
    let s = db.f141().unwrap().unwrap();
    assert_eq!(s.s7, "Luka");
    assert_eq!(s.s8, 15);
    db.f152(s.s6, "Maya", 20).unwrap();
    let s2 = db.f141().unwrap().unwrap();
    assert_eq!(s2.s7, "Maya");
    assert_eq!(s2.s8, 20);
}

#[test]
fn db_add_block() {
    let mut db = t123::new();
    db.f123().unwrap();
    let before = db.f124().unwrap().len();
    let id = db.f153("Science").unwrap();
    assert!(id > 0);
    let after = db.f124().unwrap();
    assert_eq!(after.len(), before + 1);
    assert_eq!(after.last().unwrap().s1, "Science");
}

#[test]
fn db_rename_block() {
    let mut db = t123::new();
    db.f123().unwrap();
    let blocks = db.f124().unwrap();
    db.f154(blocks[0].s0, "Art Class").unwrap();
    let updated = db.f124().unwrap();
    assert_eq!(updated[0].s1, "Art Class");
}

#[test]
fn db_delete_block() {
    let mut db = t123::new();
    db.f123().unwrap();
    let blocks = db.f124().unwrap();
    let id = blocks[0].s0;
    db.f126(id, "2026-04-01", t119::Two).unwrap();
    assert!(db.f155(id).unwrap());
    let remaining = db.f124().unwrap();
    assert_eq!(remaining.len(), blocks.len() - 1);
    assert_eq!(db.f125(id, "2026-04-01").unwrap(), t119::Zero);
}
