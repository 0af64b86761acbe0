use wowasticker::chart::{
    can_go_forward, date_display, format_date_display, goal_from_input, is_editable_day, saved_status,
    shift_date, shows_score_buttons, shows_undo, status_line, sticker_str, student_name, t126,
    today_str, try_shift_date, view_after_load,
};
use wowasticker::db::{t119, t122, DbError};

#[test]
fn sticker_str_all_values() {
    assert_eq!(sticker_str(t119::Zero), "○");
    assert_eq!(sticker_str(t119::One), "●");
    assert_eq!(sticker_str(t119::Two), "●●");
}

#[test]
fn today_str_format() {
    let s = today_str();
    assert_eq!(s.len(), 10);
    assert_eq!(s.as_bytes()[4], b'-');
    assert_eq!(s.as_bytes()[7], b'-');
}

#[test]
fn format_date_display_today() {
    assert_eq!(format_date_display(&today_str()), "Today");
}

#[test]
fn format_date_display_other_date() {
    let s = format_date_display("2026-03-27");
    assert!(s.contains("Mar"));
    assert!(s.contains("27"));
}

#[test]
fn format_date_display_invalid_date() {
    assert_eq!(format_date_display("not-a-date"), "not-a-date");
}

#[test]
fn shift_date_forward() {
    assert_eq!(shift_date("2026-03-27", 1), "2026-03-28");
}

#[test]
fn shift_date_backward() {
    assert_eq!(shift_date("2026-03-01", -1), "2026-02-28");
}

#[test]
fn shift_date_across_month_boundary() {
    assert_eq!(shift_date("2026-01-31", 1), "2026-02-01");
}

#[test]
fn shift_date_across_year_boundary() {
    assert_eq!(shift_date("2025-12-31", 1), "2026-01-01");
}

#[test]
fn shift_date_invalid() {
    assert_eq!(shift_date("bad", 1), "bad");
}

#[test]
fn shift_date_zero() {
    assert_eq!(shift_date("2026-04-01", 0), "2026-04-01");
}

#[test]
fn date_display_names_the_weekday() {
    assert_eq!(date_display("2026-03-27", "2026-03-28"), "Fri, Mar 27");
    assert_eq!(date_display("2026-03-28", "2026-03-28"), "Today");
    assert_eq!(date_display("27/03/2026", "2026-03-28"), "27/03/2026");
}

#[test]
fn shift_date_over_a_leap_day() {
    assert_eq!(shift_date("2028-02-28", 1), "2028-02-29");
    assert_eq!(shift_date("2028-03-01", -1), "2028-02-29");
    assert_eq!(shift_date("2026-03-27", 365), "2027-03-27");
}

#[test]
fn try_shift_date_stops_at_the_calendar_ends() {
    assert_eq!(try_shift_date("2026-03-27", 1), Some("2026-03-28".to_string()));
    assert_eq!(try_shift_date("bad", i64::MAX), Some("bad".to_string()));
    assert_eq!(try_shift_date("2026-03-27", 200_000_000), None);
    assert_eq!(try_shift_date("2026-03-27", i64::MAX), None);
    assert_eq!(try_shift_date("2026-03-27", i64::MIN), None);
}

#[test]
fn saved_status_quotes_what_was_heard_and_lists_tags() {
    let tags = vec!["focus".to_string(), "kindness".to_string()];
    assert_eq!(
        saved_status("Reading", t119::Two, "great job today", &tags),
        "Reading: ●● saved! — \"great job today\" [focus, kindness]"
    );
}

#[test]
fn saved_status_leaves_out_the_placeholder_and_empty_parts() {
    assert_eq!(saved_status("Math", t119::Zero, "Processed", &vec![]), "Math: ○ saved!");
    assert_eq!(saved_status("Math", t119::One, "", &vec!["focus".to_string()]), "Math: ● saved! [focus]");
}

#[test]
fn the_chart_steps_forward_only_before_today() {
    assert!(can_go_forward("2026-03-26", "2026-03-27"));
    assert!(can_go_forward("2025-12-31", "2026-01-01"));
    assert!(!can_go_forward("2026-03-27", "2026-03-27"));
    assert!(!can_go_forward("2026-03-28", "2026-03-27"));
    assert!(can_go_forward("2026-03", "2026-03-27"));
}

#[test]
fn only_today_is_editable_and_offers_undo() {
    assert!(is_editable_day("2026-03-27", "2026-03-27"));
    assert!(!is_editable_day("2026-03-26", "2026-03-27"));
    let last = Some((3, "2026-03-27".to_string()));
    assert!(shows_undo("2026-03-27", "2026-03-27", &last));
    assert!(!shows_undo("2026-03-26", "2026-03-27", &last));
    assert!(!shows_undo("2026-03-27", "2026-03-27", &None));
}

#[test]
fn student_input_rules() {
    assert_eq!(student_name("  Maya \n"), Some("Maya".to_string()));
    assert_eq!(student_name(" \t "), None);
    assert_eq!(goal_from_input("20"), 20);
    assert_eq!(goal_from_input("+7"), 7);
    assert_eq!(goal_from_input("0"), 1);
    assert_eq!(goal_from_input("-5"), 1);
    assert_eq!(goal_from_input("abc"), 15);
    assert_eq!(goal_from_input(" 20"), 15);
    assert_eq!(goal_from_input(""), 15);
    assert_eq!(goal_from_input("99999999999"), 15);
}

#[test]
fn view_mode_enum_equality() {
    assert_eq!(t126::Onboarding, t126::Onboarding);
    assert_eq!(t126::Main, t126::Main);
    assert_eq!(t126::Settings, t126::Settings);
    assert_ne!(t126::Onboarding, t126::Main);
    assert_ne!(t126::Main, t126::Settings);
}

#[test]
fn the_first_screen_depends_on_the_student() {
    let maya = t122 { s6: 1, s7: "Maya".to_string(), s8: 15 };
    assert_eq!(view_after_load(&Ok(Some(maya))), t126::Main);
    assert_eq!(view_after_load(&Ok(None)), t126::Onboarding);
    assert_eq!(view_after_load(&Err(DbError::OutOfRange)), t126::Main);
}

#[test]
fn score_buttons_only_on_the_selected_block_today() {
    assert!(shows_score_buttons(true, true));
    assert!(!shows_score_buttons(true, false));
    assert!(!shows_score_buttons(false, true));
}

#[test]
fn the_status_line_puts_errors_first() {
    let err = Some("Error: no microphone".to_string());
    let share = Some("Daily report copied to clipboard!".to_string());
    assert_eq!(status_line(&err, &share, true, false, "Done."), "Error: no microphone");
    assert_eq!(status_line(&None, &share, true, false, "Done."), "Daily report copied to clipboard!");
    assert_eq!(status_line(&None, &None, true, false, "Done."), "Loading schedule...");
    assert_eq!(status_line(&None, &None, true, true, "Transcribing..."), "Transcribing...");
    assert_eq!(status_line(&None, &None, false, false, "Done."), "Done.");
}
