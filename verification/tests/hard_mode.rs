use ohmywordle::game::{evaluate_guess, TileState};
use ohmywordle::game::TileState::{Absent, Correct, Present};
use ohmywordle::hard_mode::{
    contains_char, decimal_digits, hard_mode_verdict, try_validate_hard_mode, validate_hard_mode,
    violation_message, HardModeVerdict, HardModeViolation,
};

fn row(word: &str, states: Vec<TileState>) -> (String, Vec<TileState>) {
    (word.to_string(), states)
}

#[test]
fn no_previous_guesses_accepts_anything() {
    assert_eq!(validate_hard_mode("zzzzz", &[]), None);
}

#[test]
fn green_letter_must_stay_in_place() {
    let prev = vec![row("crane", vec![Correct, Absent, Absent, Absent, Absent])];
    assert_eq!(
        validate_hard_mode("brick", &prev),
        Some("Letter C must be in position 1".to_string())
    );
    assert_eq!(validate_hard_mode("chose", &prev), None);
}

#[test]
fn green_check_reports_one_based_position() {
    let prev = vec![row("crane", vec![Absent, Absent, Absent, Absent, Correct])];
    assert_eq!(
        validate_hard_mode("crank", &prev),
        Some("Letter E must be in position 5".to_string())
    );
}

#[test]
fn yellow_letter_must_appear() {
    let prev = vec![row("crane", vec![Absent, Present, Absent, Absent, Absent])];
    assert_eq!(
        validate_hard_mode("plumb", &prev),
        Some("Guess must contain letter R".to_string())
    );
    assert_eq!(validate_hard_mode("shirt", &prev), None);
}

#[test]
fn greens_are_checked_before_yellows() {
    let prev = vec![row("crane", vec![Present, Absent, Absent, Absent, Correct])];
    assert_eq!(
        validate_hard_mode("plumb", &prev),
        Some("Letter E must be in position 5".to_string())
    );
}

#[test]
fn guess_is_compared_lower_cased() {
    let prev = vec![row("CRANE", vec![Correct, Absent, Absent, Absent, Absent])];
    assert_eq!(validate_hard_mode("Chose", &prev), None);
}

#[test]
fn short_guess_misses_a_green() {
    let prev = vec![row("crane", vec![Absent, Absent, Absent, Absent, Correct])];
    assert_eq!(
        validate_hard_mode("cra", &prev),
        Some("Letter E must be in position 5".to_string())
    );
}

#[test]
fn earlier_rows_are_checked_first() {
    let prev = vec![
        row("slate", vec![Absent, Absent, Present, Absent, Absent]),
        row("crane", vec![Correct, Absent, Absent, Absent, Absent]),
    ];
    assert_eq!(
        validate_hard_mode("brick", &prev),
        Some("Guess must contain letter A".to_string())
    );
}

#[test]
fn out_of_range_clue_is_reported_by_the_checked_version() {
    let prev = vec![row("ab", vec![Absent, Absent, Correct])];
    assert_eq!(try_validate_hard_mode("abc", &prev), None);
    let fine = vec![row("ab", vec![Absent, Absent, Absent])];
    assert_eq!(try_validate_hard_mode("abc", &fine), Some(None));
    let broken = vec![row("ab", vec![Correct])];
    assert_eq!(
        try_validate_hard_mode("xy", &broken),
        Some(Some("Letter A must be in position 1".to_string()))
    );
}

#[test]
fn verdict_on_letters() {
    let g: Vec<char> = "brick".chars().collect();
    let rows = vec![("crane".chars().collect::<Vec<char>>(), vec![Correct, Absent, Absent, Absent, Absent])];
    assert_eq!(
        hard_mode_verdict(&g, &rows),
        HardModeVerdict::Rejected(HardModeViolation::MissingGreen { letter: 'c', position: 0 })
    );
}

#[test]
fn messages_and_digits() {
    assert_eq!(
        violation_message(HardModeViolation::MissingYellow { letter: 'q' }),
        "Guess must contain letter Q"
    );
    assert_eq!(
        violation_message(HardModeViolation::MissingGreen { letter: 'z', position: 11 }),
        "Letter Z must be in position 12"
    );
    assert_eq!(decimal_digits(0), vec!['0']);
    assert_eq!(decimal_digits(907), vec!['9', '0', '7']);
    assert!(contains_char(&['a', 'b'], 'b'));
    assert!(!contains_char(&['a', 'b'], 'c'));
}

#[test]
fn the_answer_always_passes_hard_mode() {
    let answer = "brave";
    let rows: Vec<(String, Vec<TileState>)> = ["crane", "earth", "aback", "verbs"]
        .iter()
        .map(|w| (w.to_string(), evaluate_guess(w, answer)))
        .collect();
    assert_eq!(validate_hard_mode(answer, &rows), None);
}
