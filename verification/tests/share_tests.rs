use wowasticker::db::{t119, t120, t121};
use wowasticker::share::{blocks_json, progress_message};

#[test]
fn progress_below_goal() {
    assert_eq!(progress_message(3, 15), "3 / 15 Stickers");
}

#[test]
fn progress_goal_met() {
    assert_eq!(progress_message(15, 15), "15 / 15 Stickers — Goal met!");
    assert_eq!(progress_message(16, 15), "16 / 15 Stickers — Goal met!");
}

#[test]
fn blocks_json_with_and_without_records() {
    let entries = vec![
        (
            t120 { s0: 1, s1: "Math \"A\"".to_string(), s2: 0 },
            Some(t121 {
                s3: 1,
                s4: "2026-03-27".to_string(),
                s5: t119::Two,
                s9: Some("said \"hi\"".to_string()),
            }),
        ),
        (t120 { s0: 2, s1: "Lunch".to_string(), s2: 1 }, None),
    ];
    assert_eq!(
        blocks_json(&entries),
        r#"[{"id":1,"name":"Math \"A\"","value":2,"note":"said \"hi\""},{"id":2,"name":"Lunch","value":0,"note":""}]"#
    );
}

#[test]
fn blocks_json_empty_day() {
    assert_eq!(blocks_json(&[]), "[]");
}
