use wowasticker::db::{t119, t120, t121, t122};
use wowasticker::report::generate_daily_report;

#[test]
fn generate_daily_report_basic() {
    let student = t122 { s6: 1, s7: "Luka".to_string(), s8: 10 };
    let blocks = vec![
        (
            t120 { s0: 1, s1: "Math".to_string(), s2: 0 },
            Some(t121 {
                s3: 1,
                s4: "2026-03-27".to_string(),
                s5: t119::Two,
                s9: Some("Great focus".to_string()),
            }),
        ),
        (
            t120 { s0: 2, s1: "Recess".to_string(), s2: 1 },
            Some(t121 { s3: 2, s4: "2026-03-27".to_string(), s5: t119::One, s9: None }),
        ),
        (t120 { s0: 3, s1: "Lunch".to_string(), s2: 2 }, None),
    ];
    let report = generate_daily_report(&student, "2026-03-27", &blocks, 3);
    assert!(report.contains("Luka's Sticker Report — 2026-03-27"));
    assert!(report.contains("3 / 10 stickers"));
    assert!(report.contains("●● Math — Great: Great focus"));
    assert!(report.contains("● Recess — Good"));
    assert!(report.contains("○ Lunch — No observation"));
    assert!(report.contains("Sent from WowaSticker"));
}

#[test]
fn generate_daily_report_goal_met() {
    let student = t122 { s6: 1, s7: "Luka".to_string(), s8: 2 };
    let blocks = vec![(
        t120 { s0: 1, s1: "Math".to_string(), s2: 0 },
        Some(t121 { s3: 1, s4: "2026-03-27".to_string(), s5: t119::Two, s9: None }),
    )];
    let report = generate_daily_report(&student, "2026-03-27", &blocks, 2);
    assert!(report.contains("Goal met!"));
}

#[test]
fn generate_daily_report_empty_day() {
    let student = t122 { s6: 1, s7: "Luka".to_string(), s8: 10 };
    let blocks = vec![(t120 { s0: 1, s1: "Math".to_string(), s2: 0 }, None)];
    let report = generate_daily_report(&student, "2026-03-27", &blocks, 0);
    assert!(report.contains("0 / 10 stickers"));
    assert!(report.contains("○ Math — No observation"));
    assert!(!report.contains("Goal met!"));
}

#[test]
fn report_text_exactly() {
    let student = t122 { s6: 1, s7: "Maya".to_string(), s8: 3 };
    let blocks = vec![
        (
            t120 { s0: 1, s1: "Art".to_string(), s2: 0 },
            Some(t121 { s3: 1, s4: "d".to_string(), s5: t119::Zero, s9: Some(String::new()) }),
        ),
        (t120 { s0: 2, s1: "Gym".to_string(), s2: 1 }, None),
    ];
    let report = generate_daily_report(&student, "2026-01-02", &blocks, -1);
    assert_eq!(
        report,
        "Maya's Sticker Report — 2026-01-02\nProgress: -1 / 3 stickers\n\n○ Art — Needs work\n○ Gym — No observation\n\n— Sent from WowaSticker"
    );
}

#[test]
fn report_goal_line_third_when_met() {
    let student = t122 { s6: 1, s7: "Maya".to_string(), s8: 3 };
    let report = generate_daily_report(&student, "d", &[], 3);
    let lines: Vec<&str> = report.split('\n').collect();
    assert_eq!(lines[2], "Goal met!");
    assert_eq!(lines.len(), 6);
}
