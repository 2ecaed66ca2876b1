use ohmywordle::game::{Difficulty, GameStatus, TileState};
use ohmywordle::game::TileState::{Absent, Correct, Present};
use ohmywordle::session::{App, Effect, Msg, PageLocation, RowKind};
use ohmywordle::share::encode_word;
use ohmywordle::stats::Stats;
use ohmywordle::words::WordList;

fn words() -> WordList {
    WordList::new(
        ["crane", "slate", "brave", "brick", "plumb", "shirt", "chose", "earth", "mound", "pious"]
            .iter()
            .map(|w| w.to_string())
            .collect(),
    )
}

fn page() -> PageLocation {
    PageLocation { origin: "https://example.org".to_string(), pathname: "/OhMyWordle/".to_string() }
}

fn shared(word: &str) -> App {
    App::create(Some(encode_word(word)), Difficulty::Easy, false, None, Stats::default(), words())
}

fn type_word(app: &mut App, w: &str) {
    for c in w.chars() {
        app.update(Msg::KeyPress(c.to_string()), &page());
    }
}

fn guess(app: &mut App, w: &str) -> (bool, Vec<Effect>) {
    type_word(app, w);
    app.update(Msg::Enter, &page())
}

#[test]
fn shared_link_sets_the_answer() {
    let app = shared("brave");
    assert_eq!(app.answer(), "brave");
    assert!(app.is_shared_game());
    assert_eq!(app.status(), GameStatus::Playing);
    assert!(app.guesses().is_empty());
}

#[test]
fn bad_link_falls_back_to_a_listed_word() {
    let app = App::create(Some("!!".to_string()), Difficulty::Hard, false, None, Stats::default(), words());
    assert!(!app.is_shared_game());
    assert!(words().is_valid_word(app.answer()));
    assert_eq!(app.difficulty(), Difficulty::Hard);
}

#[test]
fn empty_word_list_falls_back_to_crane() {
    let app = App::create(None, Difficulty::Easy, false, None, Stats::default(), WordList::new(vec![]));
    assert_eq!(app.answer(), "crane");
}

#[test]
fn install_banner_only_on_phones_and_until_dismissed() {
    let ua = Some("Mozilla/5.0 (iPhone)".to_string());
    let app = App::create(None, Difficulty::Easy, false, ua.clone(), Stats::default(), words());
    assert!(app.show_install_banner());
    let app = App::create(None, Difficulty::Easy, true, ua, Stats::default(), words());
    assert!(!app.show_install_banner());
    let app = App::create(None, Difficulty::Easy, false, Some("Mozilla/5.0 (X11)".to_string()), Stats::default(), words());
    assert!(!app.show_install_banner());
    let app = App::create(None, Difficulty::Easy, false, None, Stats::default(), words());
    assert!(!app.show_install_banner());
}

#[test]
fn typing_keeps_five_lower_case_letters() {
    let mut app = shared("brave");
    assert_eq!(app.update(Msg::KeyPress("B".to_string()), &page()).0, true);
    assert_eq!(app.update(Msg::KeyPress("1".to_string()), &page()).0, false);
    type_word(&mut app, "rAVEX");
    assert_eq!(app.current_guess(), "brave");
    assert_eq!(app.update(Msg::Backspace, &page()).0, true);
    assert_eq!(app.current_guess(), "brav");
}

#[test]
fn short_guess_is_refused() {
    let mut app = shared("brave");
    type_word(&mut app, "bra");
    let (redraw, effects) = app.update(Msg::Enter, &page());
    assert!(redraw);
    assert_eq!(app.message(), Some("Not enough letters"));
    assert!(matches!(effects.as_slice(), [Effect::HideMessageAfter(2000)]));
    assert!(app.guesses().is_empty());
    app.update(Msg::HideMessage, &page());
    assert_eq!(app.message(), None);
}

#[test]
fn unknown_word_is_refused() {
    let mut app = shared("brave");
    guess(&mut app, "zzzzz");
    assert_eq!(app.message(), Some("Not in word list"));
    assert!(app.guesses().is_empty());
    assert_eq!(app.current_guess(), "zzzzz");
}

#[test]
fn scored_guess_adds_a_row_and_colours_keys() {
    let mut app = shared("brave");
    let (redraw, effects) = guess(&mut app, "crane");
    assert!(redraw);
    assert!(effects.is_empty());
    assert_eq!(app.guesses().len(), 1);
    assert_eq!(app.guesses()[0].word, "crane");
    assert_eq!(app.guesses()[0].states, vec![Absent, Correct, Correct, Absent, Correct]);
    assert_eq!(app.current_guess(), "");
    assert_eq!(app.letter_state('r'), Some(Correct));
    assert_eq!(app.letter_state('c'), Some(Absent));
    assert_eq!(app.letter_state('z'), None);
    assert_eq!(app.key_class('r'), "key correct");
    assert_eq!(app.key_class('c'), "key absent");
    assert_eq!(app.key_class('q'), "key");
}

#[test]
fn keys_keep_the_best_colour() {
    let mut app = shared("brave");
    guess(&mut app, "earth"); // e, a, r yellow
    assert_eq!(app.letter_state('r'), Some(Present));
    guess(&mut app, "crane"); // r green
    assert_eq!(app.letter_state('r'), Some(Correct));
    guess(&mut app, "shirt"); // r yellow again, key stays green
    assert_eq!(app.key_class('r'), "key correct");
}

#[test]
fn winning_records_stats_and_schedules_the_dialog() {
    let mut app = shared("brave");
    guess(&mut app, "crane");
    let (_, effects) = guess(&mut app, "brave");
    assert_eq!(app.status(), GameStatus::Won);
    assert_eq!(app.message(), Some("Magnificent! 🎉"));
    assert!(matches!(
        effects.as_slice(),
        [Effect::SaveStats, Effect::HideMessageAfter(2000), Effect::ShowStatsAfter(2200)]
    ));
    assert_eq!(app.stats().played, 1);
    assert_eq!(app.stats().won, 1);
    assert_eq!(app.stats().guess_distribution, [0, 1, 0, 0, 0, 0]);
    assert!(app.is_current_distribution_entry(1));
    assert!(!app.is_current_distribution_entry(0));
    // a finished game ignores play
    assert_eq!(app.update(Msg::KeyPress("a".to_string()), &page()).0, false);
    assert_eq!(app.update(Msg::Enter, &page()).0, false);
    assert_eq!(app.update(Msg::Backspace, &page()).0, false);
    app.update(Msg::ShowStats, &page());
    assert!(app.show_stats());
}

#[test]
fn first_guess_win_is_genius() {
    let mut app = shared("brave");
    guess(&mut app, "brave");
    assert_eq!(app.message(), Some("Genius! 🎉"));
}

#[test]
fn six_misses_lose() {
    let mut app = shared("brave");
    for w in ["crane", "slate", "brick", "plumb", "shirt"] {
        guess(&mut app, w);
        assert_eq!(app.status(), GameStatus::Playing);
    }
    let (_, effects) = guess(&mut app, "mound");
    assert_eq!(app.status(), GameStatus::Lost);
    assert_eq!(app.message(), Some("The word was BRAVE"));
    assert!(matches!(
        effects.as_slice(),
        [Effect::SaveStats, Effect::HideMessageAfter(2000), Effect::ShowStatsAfter(2200)]
    ));
    assert_eq!(app.stats().played, 1);
    assert_eq!(app.stats().won, 0);
    assert_eq!(app.stats().current_streak, 0);
    assert_eq!(app.guesses().len(), 6);
}

#[test]
fn hard_mode_refuses_ignored_clues() {
    let mut app = App::create(Some(encode_word("brave")), Difficulty::Hard, false, None, Stats::default(), words());
    guess(&mut app, "crane");
    let (redraw, _) = guess(&mut app, "slate");
    assert!(redraw);
    assert_eq!(app.message(), Some("Letter R must be in position 2"));
    assert_eq!(app.guesses().len(), 1);
}

#[test]
fn difficulty_toggles_only_before_the_first_guess() {
    let mut app = shared("brave");
    let (_, effects) = app.update(Msg::ToggleDifficulty, &page());
    assert_eq!(app.difficulty(), Difficulty::Hard);
    assert!(matches!(effects.as_slice(), [Effect::SaveDifficulty]));
    assert_eq!(app.difficulty_label(), "Hard ★");
    assert_eq!(app.difficulty_class(), "btn-action btn-action-hard");
    app.update(Msg::ToggleDifficulty, &page());
    assert_eq!(app.difficulty(), Difficulty::Easy);
    assert_eq!(app.difficulty_label(), "Easy");
    guess(&mut app, "crane");
    app.update(Msg::ToggleDifficulty, &page());
    assert_eq!(app.difficulty(), Difficulty::Easy);
    assert_eq!(app.message(), Some("Cannot change difficulty mid-game"));
}

#[test]
fn share_copies_the_link() {
    let mut app = shared("brave");
    let (_, effects) = app.update(Msg::ShareUrl, &page());
    match effects.as_slice() {
        [Effect::CopyToClipboard(url), Effect::HideMessageAfter(2000)] => {
            assert_eq!(url, "https://example.org/OhMyWordle/?w=YnJhdmU")
        }
        other => panic!("unexpected effects {:?}", other),
    }
    assert_eq!(app.message(), Some("Link copied! 🔗"));
    assert_eq!(app.build_share_url(&page()), "https://example.org/OhMyWordle/?w=YnJhdmU");
}

#[test]
fn new_game_resets_the_board() {
    let mut app = shared("brave");
    guess(&mut app, "crane");
    type_word(&mut app, "sl");
    let (redraw, effects) = app.update(Msg::NewGame, &page());
    assert!(redraw);
    assert!(matches!(effects.as_slice(), [Effect::ClearUrlQuery]));
    assert!(app.guesses().is_empty());
    assert_eq!(app.current_guess(), "");
    assert_eq!(app.status(), GameStatus::Playing);
    assert!(!app.is_shared_game());
    assert_eq!(app.letter_state('r'), None);
    assert!(words().is_valid_word(app.answer()));
}

#[test]
fn challenge_link_dialog() {
    let mut app = shared("brave");
    app.update(Msg::ShowCreateLink, &page());
    assert!(app.show_create_link());
    app.update(Msg::CreateLinkInput("Sl".to_string()), &page());
    assert_eq!(app.create_link_word(), "sl");
    assert_eq!(app.create_link_error(), Some("Word must be 5 letters"));
    assert_eq!(app.create_link_url(&page()), None);
    assert_eq!(app.update(Msg::CopyCreateLink, &page()).0, false);
    app.update(Msg::CreateLinkInput("zz-zzz".to_string()), &page());
    assert_eq!(app.create_link_error(), Some("Not in word list"));
    app.update(Msg::CreateLinkInput("SLATE!".to_string()), &page());
    assert_eq!(app.create_link_error(), None);
    assert_eq!(
        app.create_link_url(&page()),
        Some(format!("https://example.org/OhMyWordle/?w={}", encode_word("slate")))
    );
    let (redraw, effects) = app.update(Msg::CopyCreateLink, &page());
    assert!(redraw);
    assert!(matches!(effects.as_slice(), [Effect::CopyToClipboard(_), Effect::HideMessageAfter(2000)]));
    assert_eq!(app.message(), Some("Challenge link copied! 🔗"));
    app.update(Msg::HideCreateLink, &page());
    assert!(!app.show_create_link());
    assert_eq!(app.create_link_word(), "");
}

#[test]
fn dialogs_and_banner() {
    let mut app = App::create(None, Difficulty::Easy, false, Some("Android".to_string()), Stats::default(), words());
    app.update(Msg::ShowHowToPlay, &page());
    assert!(app.show_how_to_play());
    app.update(Msg::HideHowToPlay, &page());
    assert!(!app.show_how_to_play());
    app.update(Msg::HideStats, &page());
    assert!(!app.show_stats());
    app.update(Msg::CopyDone, &page());
    assert!(!app.copy_done());
    assert!(app.show_install_banner());
    let (_, effects) = app.update(Msg::DismissInstallBanner, &page());
    assert!(!app.show_install_banner());
    assert!(matches!(effects.as_slice(), [Effect::SaveInstallBannerDismissed]));
}

#[test]
fn board_shows_rows_current_and_empty() {
    let mut app = shared("brave");
    guess(&mut app, "crane");
    type_word(&mut app, "sl");
    let board = app.board();
    assert_eq!(board.len(), 6);
    assert_eq!(board[0].kind, RowKind::Submitted);
    assert_eq!(board[0].tiles[1], (Some('r'), Correct));
    assert_eq!(board[1].kind, RowKind::Current);
    assert_eq!(board[1].tiles[0], (Some('s'), TileState::Filled));
    assert_eq!(board[1].tiles[2], (None, TileState::Empty));
    assert_eq!(board[2].kind, RowKind::Empty);
    assert_eq!(board[5].tiles.len(), 5);
}

#[test]
fn board_after_a_win_has_no_current_row() {
    let mut app = shared("brave");
    guess(&mut app, "brave");
    let board = app.board();
    assert_eq!(board.len(), 6);
    assert_eq!(board[0].kind, RowKind::Submitted);
    assert_eq!(board[1].kind, RowKind::Empty);
}

#[test]
fn word_list_lookup() {
    let w = words();
    assert_eq!(w.len(), 10);
    assert!(w.is_valid_word("crane"));
    assert!(!w.is_valid_word("CRANE"));
    assert!(w.is_valid_word(&w.random_word()));
}

#[test]
fn full_counters_stop_the_final_guess() {
    let mut stats = Stats::default();
    stats.played = u32::MAX;
    let mut app = App::create(Some(encode_word("brave")), Difficulty::Easy, false, None, stats, words());
    type_word(&mut app, "crane");
    assert!(app.can_count_result());
    assert!(app.try_update(Msg::Enter, &page()).is_some());
    type_word(&mut app, "brave");
    assert!(!app.can_count_result());
    assert!(app.try_update(Msg::Enter, &page()).is_none());
    assert_eq!(app.guesses().len(), 1);
    assert_eq!(app.current_guess(), "brave");
    assert!(app.try_update(Msg::Backspace, &page()).is_some());
    assert_eq!(app.current_guess(), "brav");
}

#[test]
fn physical_keys() {
    use_key("Enter", "Enter");
    use_key("Backspace", "Backspace");
    use_key("a", "a");
    use_key("Q", "Q");
    use_key("Shift", "");
    use_key("1", "");
    use_key("é", "");
}

fn use_key(key: &str, expect: &str) {
    match (ohmywordle::session::message_for_key(key.to_string()), expect) {
        (Some(Msg::Enter), "Enter") => {}
        (Some(Msg::Backspace), "Backspace") => {}
        (Some(Msg::KeyPress(k)), e) if !e.is_empty() => assert_eq!(k, e),
        (None, "") => {}
        _ => panic!("unexpected message for key {key}"),
    }
}

#[test]
fn backspace_takes_back_a_typed_letter() {
    let mut app = shared("brave");
    type_word(&mut app, "br");
    app.update(Msg::KeyPress("A".to_string()), &page());
    assert_eq!(app.current_guess(), "bra");
    app.update(Msg::Backspace, &page());
    assert_eq!(app.current_guess(), "br");
    assert_eq!(app.message(), None);
    assert!(app.guesses().is_empty());
}
