use wowasticker::db::{t119, t120, t121, t122, t123, DbError};

#[test]
fn sticker_value_stored_round_trip() {
    for v in [t119::Zero, t119::One, t119::Two] {
        assert_eq!(t119::from_stored(v.stored()), v);
    }
    assert_eq!(t119::from_stored(7), t119::Zero);
    assert_eq!(t119::from_stored(-1), t119::Zero);
    assert_eq!(t119::default(), t119::Zero);
}

#[test]
fn default_schedule_names_and_order() {
    let mut db = t123::new();
    db.f123().unwrap();
    let blocks = db.f124().unwrap();
    let names: Vec<&str> = blocks.iter().map(|b| b.s1.as_str()).collect();
    assert_eq!(names, vec!["Cultural Arts", "Community Circle", "Math", "Recess", "Lunch"]);
    let orders: Vec<i32> = blocks.iter().map(|b| b.s2).collect();
    assert_eq!(orders, vec![0, 1, 2, 3, 4]);
    let ids: Vec<i64> = blocks.iter().map(|b| b.s0).collect();
    assert_eq!(ids, vec![1, 2, 3, 4, 5]);
}

#[test]
fn default_schedule_not_added_when_blocks_exist() {
    let mut db = t123::new();
    db.f153("Science").unwrap();
    db.f123().unwrap();
    assert_eq!(db.f124().unwrap().len(), 1);
}

#[test]
fn default_schedule_stops_when_ids_run_out() {
    let mut db = t123::from_rows(vec![], vec![], vec![], 0, i64::MAX - 2).unwrap();
    assert_eq!(db.f123(), Err(DbError::Full));
    assert_eq!(db.f124().unwrap().len(), 2);
}

#[test]
fn block_ids_are_never_reused() {
    let mut db = t123::new();
    let a = db.f153("A").unwrap();
    assert!(db.f155(a).unwrap());
    let b = db.f153("B").unwrap();
    assert_eq!(a, 1);
    assert_eq!(b, 2);
    assert!(!db.f155(a).unwrap());
}

#[test]
fn add_block_when_ids_exhausted_is_refused() {
    let mut db = t123::from_rows(vec![], vec![], vec![], 0, i64::MAX).unwrap();
    assert_eq!(db.f153("A"), Err(DbError::Full));
    assert!(db.f124().unwrap().is_empty());
}

#[test]
fn new_block_sort_order_follows_the_largest() {
    let blocks = vec![t120 { s0: 3, s1: "X".to_string(), s2: 10 }];
    let mut db = t123::from_rows(vec![], blocks, vec![], 0, 3).unwrap();
    let id = db.f153("Y").unwrap();
    assert_eq!(id, 4);
    let listed = db.f124().unwrap();
    assert_eq!(listed[1].s2, 11);
}

#[test]
fn default_student_when_ids_exhausted_is_refused() {
    let mut db = t123::from_rows(vec![], vec![], vec![], i64::MAX, 0).unwrap();
    assert_eq!(db.f140(), Err(DbError::Full));
    assert!(db.f141().unwrap().is_none());
}

#[test]
fn overwrite_replaces_note() {
    let mut db = t123::new();
    db.f136(1, "2026-03-03", t119::One, Some("first")).unwrap();
    db.f136(1, "2026-03-03", t119::Two, None).unwrap();
    let rec = db.f143(1, "2026-03-03").unwrap().unwrap();
    assert_eq!(rec.s5, t119::Two);
    assert_eq!(rec.s9, None);
    assert_eq!(db.f145("2026-03-03").unwrap(), 2);
}

#[test]
fn counts_are_per_day() {
    let mut db = t123::new();
    db.f126(1, "2026-03-03", t119::Two).unwrap();
    db.f126(2, "2026-03-04", t119::One).unwrap();
    assert_eq!(db.f145("2026-03-03").unwrap(), 2);
    assert_eq!(db.f145("2026-03-04").unwrap(), 1);
    assert_eq!(db.f145("2026-03-05").unwrap(), 0);
    assert!(db.f146(1, "2026-03-03").unwrap());
    assert_eq!(db.f145("2026-03-03").unwrap(), 0);
    assert_eq!(db.f145("2026-03-04").unwrap(), 1);
}

#[test]
fn today_reads_what_today_wrote() {
    let mut db = t123::new();
    db.f135(7, t119::One, Some("ok")).unwrap();
    assert_eq!(db.f127(7).unwrap(), t119::One);
    assert_eq!(db.f142().unwrap(), 1);
}

#[test]
fn delete_block_keeps_other_blocks_records() {
    let mut db = t123::new();
    db.f123().unwrap();
    db.f126(1, "d", t119::Two).unwrap();
    db.f126(2, "d", t119::One).unwrap();
    assert!(db.f155(1).unwrap());
    assert_eq!(db.f125(2, "d").unwrap(), t119::One);
    assert_eq!(db.f145("d").unwrap(), 1);
}

#[test]
fn rename_keeps_order_and_other_names() {
    let mut db = t123::new();
    db.f123().unwrap();
    db.f154(3, "Numbers").unwrap();
    let names: Vec<String> = db.f124().unwrap().into_iter().map(|b| b.s1).collect();
    assert_eq!(names, vec!["Cultural Arts", "Community Circle", "Numbers", "Recess", "Lunch"]);
}

#[test]
fn update_missing_student_changes_nothing() {
    let mut db = t123::new();
    db.f140().unwrap();
    db.f152(99, "Zed", 3).unwrap();
    let s = db.f141().unwrap().unwrap();
    assert_eq!(s.s7, "Luka");
    assert_eq!(s.s8, 15);
}

#[test]
fn rows_load_back() {
    let mut db = t123::new();
    db.f140().unwrap();
    db.f123().unwrap();
    db.f136(2, "2026-03-27", t119::Two, Some("note")).unwrap();
    let (students, blocks, records, ls, lb) = db.rows();
    let copy = t123::from_rows(students, blocks, records, ls, lb).unwrap();
    assert_eq!(copy.f124().unwrap(), db.f124().unwrap());
    assert_eq!(copy.f141().unwrap(), db.f141().unwrap());
    assert_eq!(copy.f143(2, "2026-03-27").unwrap(), db.f143(2, "2026-03-27").unwrap());
}

#[test]
fn rows_breaking_the_rules_are_refused() {
    let s = |id: i64| t122 { s6: id, s7: "S".to_string(), s8: 1 };
    let b = |id: i64, order: i32| t120 { s0: id, s1: "B".to_string(), s2: order };
    let r = |block: i64, date: &str| t121 { s3: block, s4: date.to_string(), s5: t119::One, s9: None };
    assert!(t123::from_rows(vec![s(2), s(1)], vec![], vec![], 2, 0).is_none());
    assert!(t123::from_rows(vec![s(3)], vec![], vec![], 2, 0).is_none());
    assert!(t123::from_rows(vec![], vec![b(1, 1), b(2, 0)], vec![], 0, 2).is_none());
    assert!(t123::from_rows(vec![], vec![b(1, 0), b(1, 1)], vec![], 0, 2).is_none());
    assert!(t123::from_rows(vec![], vec![], vec![r(1, "d"), r(1, "d")], 0, 0).is_none());
    assert!(t123::from_rows(vec![], vec![], vec![], -1, 0).is_none());
    assert!(t123::from_rows(vec![s(1)], vec![b(2, 0), b(1, 0)], vec![r(1, "d"), r(1, "e")], 1, 2).is_none());
    assert!(t123::from_rows(vec![s(1)], vec![b(1, 0), b(2, 0)], vec![r(1, "d"), r(1, "e")], 1, 2).is_some());
}
