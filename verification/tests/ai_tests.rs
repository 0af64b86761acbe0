use wowasticker::ai::{f120, f134, t124};
use wowasticker::db::t119;

#[test]
fn parse_sticker_great_returns_two() {
    assert_eq!(f120("He did great!"), t119::Two);
}

#[test]
fn parse_sticker_excellent_returns_two() {
    assert_eq!(f120("Excellent work"), t119::Two);
}

#[test]
fn parse_sticker_good_returns_one() {
    assert_eq!(f120("Good job today"), t119::One);
}

#[test]
fn parse_sticker_ok_returns_one() {
    assert_eq!(f120("Ok, fine"), t119::One);
}

#[test]
fn parse_sticker_empty_returns_zero() {
    assert_eq!(f120(""), t119::Zero);
}

#[test]
fn parse_sticker_neutral_returns_zero() {
    assert_eq!(f120("needs improvement"), t119::Zero);
}

#[test]
fn parse_sticker_refusal_returns_zero() {
    assert_eq!(f120("Refused to do work"), t119::Zero);
}

#[test]
fn parse_sticker_awesome_returns_two() {
    assert_eq!(f120("Awesome job!"), t119::Two);
}

#[test]
fn parse_sticker_perfect_returns_two() {
    assert_eq!(f120("Perfect day"), t119::Two);
}

#[test]
fn parse_sticker_fine_returns_one() {
    assert_eq!(f120("Did fine today"), t119::One);
}

#[test]
fn parse_sticker_did_well_returns_one() {
    assert_eq!(f120("He did well"), t119::One);
}

#[test]
fn parse_sticker_acceptable_returns_one() {
    assert_eq!(f120("Acceptable behavior"), t119::One);
}

#[test]
fn parse_sticker_elopement_returns_zero() {
    assert_eq!(f120("Elopement incident"), t119::Zero);
}

#[test]
fn parse_sticker_combative_returns_zero() {
    assert_eq!(f120("Combative with staff"), t119::Zero);
}

#[test]
fn parse_sticker_no_work_returns_zero() {
    assert_eq!(f120("No work completed"), t119::Zero);
}

#[test]
fn parse_sticker_didnt_returns_zero() {
    assert_eq!(f120("He didn't participate"), t119::Zero);
}

#[test]
fn extract_behavior_returns_score_and_note() {
    let r = f134("He did great today!");
    assert_eq!(r.s10, t119::Two);
    assert_eq!(r.s11, "He did great today!");
    assert!(r.s12.contains(&"positive".to_string()));
}

#[test]
fn extract_behavior_tags_elopement_refusal_combative() {
    let r = f134("Elopement and refused to stay in. Combative.");
    assert!(r.s12.contains(&"elopement".to_string()));
    assert!(r.s12.contains(&"refusal".to_string()));
    assert!(r.s12.contains(&"combative".to_string()));
}

#[test]
fn extract_behavior_tags_stay_in_finish() {
    let r = f134("Had to stay in his seat and helped finish the work.");
    assert!(r.s12.contains(&"stay_in_space".to_string()));
    assert!(r.s12.contains(&"finish_work".to_string()));
}

#[test]
fn f134_empty_input() {
    let r = f134("");
    assert_eq!(r.s10, t119::Zero);
    assert_eq!(r.s11, "");
    assert!(r.s12.is_empty());
}

#[test]
fn f134_mixed_case_great() {
    assert_eq!(f120("GREAT job"), t119::Two);
    assert_eq!(f120("GrEaT work"), t119::Two);
    assert_eq!(f120("EXCELLENT"), t119::Two);
}

#[test]
fn f134_unicode_text() {
    let r = f134("Très bien! 👍 Great");
    assert_eq!(r.s10, t119::Two);
    assert_eq!(r.s11, "Très bien! 👍 Great");
    assert!(r.s12.contains(&"positive".to_string()));
}

#[test]
fn f134_very_long_text() {
    let long = "great ".repeat(5000);
    let r = f134(&long);
    assert_eq!(r.s10, t119::Two);
}

#[test]
fn f134_numbers_only() {
    let r = f134("12345 67890");
    assert_eq!(r.s10, t119::Zero);
    assert!(r.s12.is_empty());
}

#[test]
fn f134_whitespace_only() {
    let r = f134("   \t\n  ");
    assert_eq!(r.s10, t119::Zero);
}

#[test]
fn f134_conflicting_keywords_first_wins() {
    let r = f134("great but also refusal");
    assert_eq!(r.s10, t119::Two);
}

#[test]
fn f138_empty_returns_no_tags() {
    let r = f134("");
    assert!(r.s12.is_empty());
}

#[test]
fn f138_tag_in_middle_of_word() {
    let r = f134("unfinished business");
    assert!(r.s12.contains(&"finish_work".to_string()));
}

#[test]
fn f138_all_tags_at_once() {
    let r = f134("elopement refusal combative stay in finish great excellent");
    assert!(r.s12.contains(&"elopement".to_string()));
    assert!(r.s12.contains(&"refusal".to_string()));
    assert!(r.s12.contains(&"combative".to_string()));
    assert!(r.s12.contains(&"stay_in_space".to_string()));
    assert!(r.s12.contains(&"finish_work".to_string()));
    assert!(r.s12.contains(&"positive".to_string()));
    assert_eq!(r.s12.len(), 7);
}

#[test]
fn f138_case_insensitive() {
    let r = f134("ELOPEMENT REFUSAL COMBATIVE");
    assert!(r.s12.contains(&"elopement".to_string()));
    assert!(r.s12.contains(&"refusal".to_string()));
    assert!(r.s12.contains(&"combative".to_string()));
}

#[test]
fn f138_partial_match_not_exact() {
    let r = f134("She refused to participate");
    assert!(r.s12.contains(&"refusal".to_string()));
}

#[test]
fn parse_sticker_okay_returns_one() {
    assert_eq!(f120("It was okay"), t119::One);
}

#[test]
fn parse_sticker_multiple_keywords_first_match_wins() {
    assert_eq!(f120("great and good"), t119::Two);
}

#[test]
fn parse_sticker_keyword_in_sentence() {
    assert_eq!(f120("He showed excellent behavior during the activity"), t119::Two);
}

#[test]
fn parse_sticker_punctuation_around_keyword() {
    assert_eq!(f120("great!"), t119::Two);
    assert_eq!(f120("(good)"), t119::One);
    assert_eq!(f120("'refusal'"), t119::Zero);
}

#[test]
fn more_words_never_lower_the_score() {
    assert_eq!(f120("elopement during lunch"), t119::Zero);
    assert_eq!(f120("elopement during lunch, then GREAT recovery"), t119::Two);
    assert_eq!(f120("fine at recess"), t119::One);
    assert_eq!(f120("fine at recess, refused math"), t119::One);
    assert_eq!(f120("Refused, but EXCELLENT later"), t119::Two);
}

#[test]
fn an_empty_observation_by_default() {
    let r = t124::default();
    assert_eq!(r.s10, t119::Zero);
    assert!(r.s11.is_empty());
    assert!(r.s12.is_empty());
}
