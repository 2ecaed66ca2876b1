use ohmywordle::game::{evaluate_guess, evaluate_letters, Difficulty, GameStatus, TileState, MAX_GUESSES, WORD_LENGTH};
use ohmywordle::game::TileState::{Absent, Correct, Present};

fn chars(s: &str) -> Vec<char> {
    s.chars().collect()
}

#[test]
fn constants_match_the_rules() {
    assert_eq!(WORD_LENGTH, 5);
    assert_eq!(MAX_GUESSES, 6);
    assert_ne!(GameStatus::Playing, GameStatus::Won);
    assert_ne!(Difficulty::Easy, Difficulty::Hard);
}

#[test]
fn exact_guess_is_all_green() {
    assert_eq!(evaluate_guess("brave", "brave"), vec![Correct; 5]);
}

#[test]
fn guess_is_case_insensitive() {
    assert_eq!(evaluate_guess("BRAVE", "brave"), vec![Correct; 5]);
    assert_eq!(evaluate_guess("crane", "CRANE"), vec![Correct; 5]);
}

#[test]
fn disjoint_letters_are_all_grey() {
    assert_eq!(evaluate_guess("brick", "mound"), vec![Absent; 5]);
}

#[test]
fn yellow_for_right_letter_wrong_place() {
    // answer "crane": r, a, e present but misplaced in "earth"
    assert_eq!(
        evaluate_guess("earth", "crane"),
        vec![Present, Present, Present, Absent, Absent]
    );
}

#[test]
fn green_takes_precedence_over_yellow_for_repeated_letters() {
    // "speed" vs "abide": only the final e... answer has one e at position 4? abide = a b i d e
    assert_eq!(
        evaluate_guess("speed", "abide"),
        vec![Absent, Absent, Present, Absent, Present]
    );
    // answer "eerie" has three e's; guess "sheep": e at 2 and 3
    assert_eq!(
        evaluate_guess("sheep", "eerie"),
        vec![Absent, Absent, Present, Present, Absent]
    );
}

#[test]
fn repeated_guess_letter_gets_only_as_many_marks_as_the_answer_has() {
    // answer has one 'l': the green one is used, the other 'l' is grey
    assert_eq!(
        evaluate_guess("hello", "world"),
        vec![Absent, Absent, Absent, Correct, Present]
    );
    // answer has one 'o' at the end of "piano"? p i a n o: guess "books"
    assert_eq!(
        evaluate_guess("books", "piano"),
        vec![Absent, Present, Absent, Absent, Absent]
    );
}

#[test]
fn short_guess_still_gives_five_tiles() {
    assert_eq!(evaluate_guess("br", "brave"), vec![Correct, Correct, Absent, Absent, Absent]);
    assert_eq!(evaluate_guess("", "brave"), vec![Absent; 5]);
}

#[test]
fn short_answer_scores_only_its_letters() {
    assert_eq!(evaluate_guess("brave", "br"), vec![Correct, Correct, Absent, Absent, Absent]);
    assert_eq!(evaluate_guess("rb", "br"), vec![Present, Present, Absent, Absent, Absent]);
}

#[test]
fn letters_past_the_fifth_are_ignored() {
    assert_eq!(evaluate_guess("bravest", "braveheart"), vec![Correct; 5]);
    // the 6th letter of the answer is never offered as a yellow match
    assert_eq!(
        evaluate_guess("xxxxz", "aaaaaz"),
        vec![Absent, Absent, Absent, Absent, Absent]
    );
}

#[test]
fn letter_level_scoring_matches_string_scoring() {
    assert_eq!(
        evaluate_letters(&chars("earth"), &chars("crane")),
        evaluate_guess("earth", "crane")
    );
    assert_eq!(
        evaluate_letters(&chars("EARTH"), &chars("crane")),
        vec![Absent, Absent, Absent, Absent, Absent]
    );
}

#[test]
fn marked_letters_never_exceed_the_answer_copies() {
    // "eeeee" against "there": two e's in the answer -> two marks
    let tiles = evaluate_guess("eeeee", "there");
    let marked = tiles.iter().filter(|t| **t == Correct || **t == Present).count();
    assert_eq!(marked, 2);
    assert_eq!(tiles, vec![Absent, Absent, Correct, Absent, Correct]);
}

#[test]
fn tile_state_copies_compare_equal() {
    let t = TileState::Filled;
    let u = t;
    assert_eq!(t, u);
    assert_ne!(TileState::Empty, TileState::Filled);
}
