use vstd::prelude::*;
use vstd::string::StringExecFns;
use crate::game::{
    all_correct, evaluate_guess, evaluation, Difficulty, GameStatus, TileState, MAX_GUESSES,
    WORD_LENGTH,
};
use crate::hard_mode::{
    hard_mode_verdict_of, lowered_rows, validate_hard_mode, violation_text, HardModeVerdict,
};
use crate::keyboard::{apply_row, apply_rows, apply_tile, char_at, known, LetterStates};
use crate::page::{
    build_url_for_word, filter_link_input, install_instructions, install_instructions_for,
    link_input_word, url_for_word,
};
use crate::share::{decode_word, shared_word_of};
use crate::stats::{Stats, StatsView};
use crate::text::{
    ascii_lower, chars_of, is_letter, is_lower_letter, is_lower_word, lowercased, push_char,
    pop_char, to_lowercase, to_uppercase, uppercased,
};
use crate::words::WordList;

verus! {

/// A submitted guess and the tiles it earned.
#[derive(Clone, Debug)]
pub struct GuessRow {
    pub word: String,
    pub states: Vec<TileState>,
}

impl GuessRow {
    /// The row as letters and tiles.
    pub open spec fn view(&self) -> (Seq<char>, Seq<TileState>) {
        (self.word@, self.states@)
    }
}

/// What the player (or a timer) asks of the game.
pub enum Msg {
    KeyPress(String),
    Backspace,
    Enter,
    NewGame,
    ShareUrl,
    ToggleDifficulty,
    ShowStats,
    HideStats,
    ShowHowToPlay,
    HideHowToPlay,
    HideMessage,
    CopyDone,
    ShowCreateLink,
    HideCreateLink,
    CreateLinkInput(String),
    CopyCreateLink,
    DismissInstallBanner,
}

/// Work outside the game that a step asks the page to do.
#[derive(Clone, Debug)]
pub enum Effect {
    /// Send `Msg::HideMessage` after this many milliseconds.
    HideMessageAfter(u32),
    /// Send `Msg::ShowStats` after this many milliseconds.
    ShowStatsAfter(u32),
    /// Store the statistics.
    SaveStats,
    /// Store the difficulty.
    SaveDifficulty,
    /// Store that the install banner was dismissed.
    SaveInstallBannerDismissed,
    /// Drop the query from the page's address.
    ClearUrlQuery,
    /// Copy the text to the clipboard, then send `Msg::CopyDone`.
    CopyToClipboard(String),
}

/// An effect with its text as characters.
pub enum EffectView {
    HideMessageAfter(u32),
    ShowStatsAfter(u32),
    SaveStats,
    SaveDifficulty,
    SaveInstallBannerDismissed,
    ClearUrlQuery,
    CopyToClipboard(Seq<char>),
}

impl Effect {
    pub open spec fn view(&self) -> EffectView {
        match self {
            Effect::HideMessageAfter(ms) => EffectView::HideMessageAfter(*ms),
            Effect::ShowStatsAfter(ms) => EffectView::ShowStatsAfter(*ms),
            Effect::SaveStats => EffectView::SaveStats,
            Effect::SaveDifficulty => EffectView::SaveDifficulty,
            Effect::SaveInstallBannerDismissed => EffectView::SaveInstallBannerDismissed,
            Effect::ClearUrlQuery => EffectView::ClearUrlQuery,
            Effect::CopyToClipboard(t) => EffectView::CopyToClipboard(t@),
        }
    }
}

/// The effects of a step, as views.
pub open spec fn effects_view(e: Seq<Effect>) -> Seq<EffectView> {
    e.map_values(|x: Effect| x.view())
}

/// Where the page is served from, read when a step builds a link.
pub struct PageLocation {
    pub origin: String,
    pub pathname: String,
}

/// A game session as plain values.
pub struct AppView {
    pub answer: Seq<char>,
    pub current_guess: Seq<char>,
    pub guesses: Seq<(Seq<char>, Seq<TileState>)>,
    pub status: GameStatus,
    pub difficulty: Difficulty,
    pub stats: StatsView,
    pub message: Option<Seq<char>>,
    pub show_stats: bool,
    pub show_how_to_play: bool,
    pub is_shared_game: bool,
    pub letter_states: Map<char, TileState>,
    pub copy_done: bool,
    pub show_create_link: bool,
    pub create_link_word: Seq<char>,
    pub show_install_banner: bool,
    pub words: Seq<Seq<char>>,
}

/// A game session.
pub struct App {
    answer: String,
    current_guess: String,
    guesses: Vec<GuessRow>,
    status: GameStatus,
    difficulty: Difficulty,
    stats: Stats,
    message: Option<String>,
    show_stats: bool,
    show_how_to_play: bool,
    is_shared_game: bool,
    letter_states: LetterStates,
    copy_done: bool,
    show_create_link: bool,
    create_link_word: String,
    show_install_banner: bool,
    words: WordList,
}

/// The rows as letters and tiles.
pub open spec fn rows_of(g: Seq<GuessRow>) -> Seq<(Seq<char>, Seq<TileState>)> {
    g.map_values(|r: GuessRow| r.view())
}

/// An optional message as characters.
pub open spec fn message_view(m: Option<String>) -> Option<Seq<char>> {
    match m {
        Some(t) => Some(t@),
        None => None,
    }
}

impl App {
    pub closed spec fn view(&self) -> AppView {
        AppView {
            answer: self.answer@,
            current_guess: self.current_guess@,
            guesses: rows_of(self.guesses@),
            status: self.status,
            difficulty: self.difficulty,
            stats: self.stats@,
            message: message_view(self.message),
            show_stats: self.show_stats,
            show_how_to_play: self.show_how_to_play,
            is_shared_game: self.is_shared_game,
            letter_states: self.letter_states@,
            copy_done: self.copy_done,
            show_create_link: self.show_create_link,
            create_link_word: self.create_link_word@,
            show_install_banner: self.show_install_banner,
            words: self.words@,
        }
    }
}

/// The view with a message shown.
pub open spec fn with_message(s: AppView, text: Seq<char>) -> AppView {
    AppView { message: Some(text), ..s }
}

/// How long a message stays, in milliseconds.
pub open spec fn message_millis() -> u32 {
    2000
}

/// How long after a finished game the statistics open, in milliseconds.
pub open spec fn stats_millis() -> u32 {
    2200
}

/// A step that changes nothing and needs no redraw.
pub open spec fn unchanged(s: AppView) -> (AppView, bool, Seq<EffectView>) {
    (s, false, seq![])
}

/// A step that shows a message.
pub open spec fn saying(s: AppView, text: Seq<char>) -> (AppView, bool, Seq<EffectView>) {
    (with_message(s, text), true, seq![EffectView::HideMessageAfter(message_millis())])
}

/// The first character of a string, or a space when it is empty.
pub open spec fn first_or_space(k: Seq<char>) -> char {
    if k.len() > 0 {
        k[0]
    } else {
        ' '
    }
}

/// A key press: while playing, a letter key adds its letter, lower-cased,
/// to a guess of fewer than five letters.
pub open spec fn key_press_step(s: AppView, key: Seq<char>) -> (AppView, bool, Seq<EffectView>) {
    let ch = first_or_space(lowercased(key));
    if s.status != GameStatus::Playing {
        unchanged(s)
    } else if s.current_guess.len() < WORD_LENGTH && is_lower_letter(ch) {
        (AppView { current_guess: s.current_guess.push(ch), ..s }, true, seq![])
    } else {
        unchanged(s)
    }
}

/// Backspace: while playing, drops the last letter of the guess, if any.
pub open spec fn backspace_step(s: AppView) -> (AppView, bool, Seq<EffectView>) {
    if s.status != GameStatus::Playing {
        unchanged(s)
    } else {
        (
            AppView {
                current_guess: if s.current_guess.len() > 0 {
                    s.current_guess.drop_last()
                } else {
                    s.current_guess
                },
                ..s
            },
            true,
            seq![],
        )
    }
}

/// The earlier rows as hard mode reads them: words lower-cased.
pub open spec fn lowered(rows: Seq<(Seq<char>, Seq<TileState>)>) -> Seq<(Seq<char>, Seq<TileState>)> {
    rows.map_values(|r: (Seq<char>, Seq<TileState>)| (lowercased(r.0), r.1))
}

/// The praise for a win with `n` guesses.
pub open spec fn win_text(n: int) -> Seq<char> {
    if n == 1 {
        "Genius! 🎉"@
    } else if n == 2 {
        "Magnificent! 🎉"@
    } else if n == 3 {
        "Impressive! 🎉"@
    } else if n == 4 {
        "Splendid! 🎉"@
    } else if n == 5 {
        "Great! 🎉"@
    } else {
        "Phew! 😅"@
    }
}

/// The message when the last guess misses.
pub open spec fn loss_text(answer: Seq<char>) -> Seq<char> {
    "The word was "@ + uppercased(answer)
}

/// The tiles a submitted guess earns.
pub open spec fn scored_tiles(s: AppView) -> Seq<TileState> {
    evaluation(lowercased(s.current_guess), lowercased(s.answer))
}

/// The session once the current guess is scored and added as a row, before
/// the game's end is decided.
pub open spec fn scored(s: AppView) -> AppView {
    let rows = s.guesses.push((s.current_guess, scored_tiles(s)));
    AppView {
        guesses: rows,
        letter_states: apply_rows(s.letter_states, rows, rows.len() as int),
        current_guess: seq![],
        ..s
    }
}

/// Enter: while playing, a guess of five letters that is on the list (and,
/// in hard mode, reuses every clue) is scored and added as a row; a green
/// row wins, a sixth miss loses, and either is counted in the statistics.
/// Otherwise a message says what is wrong.
pub open spec fn enter_step(s: AppView) -> (AppView, bool, Seq<EffectView>) {
    let verdict = hard_mode_verdict_of(lowercased(s.current_guess), lowered(s.guesses));
    if s.status != GameStatus::Playing {
        unchanged(s)
    } else if s.current_guess.len() != WORD_LENGTH {
        saying(s, "Not enough letters"@)
    } else if !s.words.contains(s.current_guess) {
        saying(s, "Not in word list"@)
    } else if s.difficulty == Difficulty::Hard && verdict is Rejected {
        saying(s, violation_text(verdict->Rejected_0))
    } else {
        submit_step(s)
    }
}

/// Scoring an accepted guess: a green row wins, a sixth miss loses, and
/// either is counted in the statistics.
pub open spec fn submit_step(s: AppView) -> (AppView, bool, Seq<EffectView>) {
    let t = scored(s);
    let n = t.guesses.len() as int;
    if all_correct(scored_tiles(s)) {
        (
            AppView {
                status: GameStatus::Won,
                stats: s.stats.after_win(n),
                message: Some(win_text(n)),
                ..t
            },
            true,
            seq![
                EffectView::SaveStats,
                EffectView::HideMessageAfter(message_millis()),
                EffectView::ShowStatsAfter(stats_millis()),
            ],
        )
    } else if n >= MAX_GUESSES {
        (
            AppView {
                status: GameStatus::Lost,
                stats: s.stats.after_loss(),
                message: Some(loss_text(s.answer)),
                ..t
            },
            true,
            seq![
                EffectView::SaveStats,
                EffectView::HideMessageAfter(message_millis()),
                EffectView::ShowStatsAfter(stats_millis()),
            ],
        )
    } else {
        (t, true, seq![])
    }
}

/// Whether an Enter can count its result without overflowing a counter:
/// a win needs room in the game, win and streak counters and in its
/// distribution entry, a loss in the game counter.
pub open spec fn enter_fits(s: AppView) -> bool {
    let (t, _, _) = enter_step(s);
    let n = t.guesses.len() as int;
    &&& (s.status == GameStatus::Playing && t.status == GameStatus::Won) ==> {
        &&& s.stats.played < u32::MAX
        &&& s.stats.won < u32::MAX
        &&& s.stats.current_streak < u32::MAX
        &&& StatsView::counts_guesses(n) ==> s.stats.guess_distribution[n - 1] < u32::MAX
    }
    &&& (s.status == GameStatus::Playing && t.status == GameStatus::Lost) ==> s.stats.played
        < u32::MAX
}

/// The other difficulty.
pub open spec fn toggled(d: Difficulty) -> Difficulty {
    match d {
        Difficulty::Easy => Difficulty::Hard,
        Difficulty::Hard => Difficulty::Easy,
    }
}

/// A fresh game with `answer`: no guesses, no letters known, no message, the
/// statistics closed; statistics, difficulty and the rest are kept.
pub open spec fn new_game_view(s: AppView, answer: Seq<char>) -> AppView {
    AppView {
        answer: answer,
        current_guess: seq![],
        guesses: seq![],
        status: GameStatus::Playing,
        message: None,
        show_stats: false,
        is_shared_game: false,
        letter_states: Map::empty(),
        ..s
    }
}

/// Whether `w` is a word that a random pick from `words` can give.
pub open spec fn may_pick(words: Seq<Seq<char>>, w: Seq<char>) -> bool {
    if words.len() == 0 {
        w == "crane"@
    } else {
        words.contains(w)
    }
}

/// What one message does to a session, for a page at `origin` and
/// `pathname`; `fresh` is the word a new game draws.
pub open spec fn step(s: AppView, msg: Msg, origin: Seq<char>, pathname: Seq<char>, fresh: Seq<char>) -> (AppView, bool, Seq<EffectView>) {
    match msg {
        Msg::KeyPress(key) => key_press_step(s, key@),
        Msg::Backspace => backspace_step(s),
        Msg::Enter => enter_step(s),
        Msg::NewGame => (new_game_view(s, fresh), true, seq![EffectView::ClearUrlQuery]),
        Msg::ShareUrl => (
            with_message(s, "Link copied! 🔗"@),
            true,
            seq![
                EffectView::CopyToClipboard(url_for_word(origin, pathname, s.answer)),
                EffectView::HideMessageAfter(message_millis()),
            ],
        ),
        Msg::ToggleDifficulty => if s.guesses.len() == 0 {
            (
                AppView { difficulty: toggled(s.difficulty), ..s },
                true,
                seq![EffectView::SaveDifficulty],
            )
        } else {
            saying(s, "Cannot change difficulty mid-game"@)
        },
        Msg::ShowStats => (AppView { show_stats: true, ..s }, true, seq![]),
        Msg::HideStats => (AppView { show_stats: false, ..s }, true, seq![]),
        Msg::ShowHowToPlay => (AppView { show_how_to_play: true, ..s }, true, seq![]),
        Msg::HideHowToPlay => (AppView { show_how_to_play: false, ..s }, true, seq![]),
        Msg::HideMessage => (AppView { message: None, ..s }, true, seq![]),
        Msg::CopyDone => (AppView { copy_done: false, ..s }, true, seq![]),
        Msg::ShowCreateLink => (
            AppView { show_create_link: true, create_link_word: seq![], ..s },
            true,
            seq![],
        ),
        Msg::HideCreateLink => (
            AppView { show_create_link: false, create_link_word: seq![], ..s },
            true,
            seq![],
        ),
        Msg::CreateLinkInput(raw) => (
            AppView { create_link_word: link_input_word(raw@), ..s },
            true,
            seq![],
        ),
        Msg::CopyCreateLink => if !s.words.contains(s.create_link_word) {
            unchanged(s)
        } else {
            (
                with_message(s, "Challenge link copied! 🔗"@),
                true,
                seq![
                    EffectView::CopyToClipboard(url_for_word(origin, pathname, s.create_link_word)),
                    EffectView::HideMessageAfter(message_millis()),
                ],
            )
        },
        Msg::DismissInstallBanner => (
            AppView { show_install_banner: false, ..s },
            true,
            seq![EffectView::SaveInstallBannerDismissed],
        ),
    }
}

/// A row that the game keeps: a five-letter lower-case word and its tiles
/// against the answer.
pub open spec fn valid_row(row: (Seq<char>, Seq<TileState>), answer: Seq<char>) -> bool {
    &&& row.0.len() == WORD_LENGTH
    &&& is_lower_word(row.0)
    &&& row.1 == evaluation(row.0, lowercased(answer))
}

/// No row among the first `n` is all green.
pub open spec fn no_win_before(rows: Seq<(Seq<char>, Seq<TileState>)>, n: int) -> bool {
    forall|k: int| 0 <= k < n ==> !all_correct(#[trigger] rows[k].1)
}

/// The session's invariant: the guess being typed and the challenge word are
/// at most five lower-case letters; there are at most six rows, each scored
/// against the answer; a game is on while no row is all green and fewer
/// than six were played, won when the last row (and only it) is all green,
/// and lost after six rows none of which is all green.
pub open spec fn well_formed(s: AppView) -> bool {
    &&& s.current_guess.len() <= WORD_LENGTH
    &&& is_lower_word(s.current_guess)
    &&& s.create_link_word.len() <= WORD_LENGTH
    &&& is_lower_word(s.create_link_word)
    &&& s.guesses.len() <= MAX_GUESSES
    &&& forall|k: int| 0 <= k < s.guesses.len() ==> valid_row(#[trigger] s.guesses[k], s.answer)
    &&& s.status == GameStatus::Playing ==> s.guesses.len() < MAX_GUESSES && no_win_before(
        s.guesses,
        s.guesses.len() as int,
    )
    &&& s.status == GameStatus::Won ==> s.guesses.len() > 0 && all_correct(s.guesses.last().1)
        && no_win_before(s.guesses, s.guesses.len() - 1)
    &&& s.status == GameStatus::Lost ==> s.guesses.len() == MAX_GUESSES && no_win_before(
        s.guesses,
        s.guesses.len() as int,
    )
    &&& s.stats.guess_distribution.len() == 6
    &&& s.difficulty == Difficulty::Hard ==> rows_follow_hard_mode(s.guesses)
    &&& keyboard_consistent(s.letter_states, s.guesses)
}

/// Some tile of the rows shows the letter `c` in state `v`.
pub open spec fn from_tile(rows: Seq<(Seq<char>, Seq<TileState>)>, c: char, v: TileState) -> bool {
    exists|j: int, i: int|
        0 <= j < rows.len() && 0 <= i < rows[j].1.len() && char_at(rows[j].0, i) == c
            && #[trigger] rows[j].1[i] == v
}

/// The keyboard matches the board: every known letter's state is the state
/// of one of its tiles, and no tile of a letter ranks above its key.
pub open spec fn keyboard_consistent(m: Map<char, TileState>, rows: Seq<(Seq<char>, Seq<TileState>)>) -> bool {
    &&& forall|c: char| #[trigger] m.dom().contains(c) ==> from_tile(rows, c, m[c])
    &&& forall|j: int, i: int|
        0 <= j < rows.len() && 0 <= i < rows[j].1.len() ==> rank(
            known(m, char_at(rows[j].0, i)),
        ) >= rank(Some(#[trigger] rows[j].1[i]))
}

/// Every row reuses the clues of the rows before it.
pub open spec fn rows_follow_hard_mode(rows: Seq<(Seq<char>, Seq<TileState>)>) -> bool {
    forall|k: int|
        0 <= k < rows.len() ==> hard_mode_verdict_of(lowercased((#[trigger] rows[k]).0), lowered(rows.take(k)))
            == HardModeVerdict::Accepted
}

/// A session at its start: answer chosen, nothing typed, no dialog open.
pub open spec fn initial_view(
    answer: Seq<char>,
    is_shared_game: bool,
    difficulty: Difficulty,
    stats: StatsView,
    show_install_banner: bool,
    words: Seq<Seq<char>>,
) -> AppView {
    AppView {
        answer,
        current_guess: seq![],
        guesses: seq![],
        status: GameStatus::Playing,
        difficulty,
        stats,
        message: None,
        show_stats: false,
        show_how_to_play: false,
        is_shared_game,
        letter_states: Map::empty(),
        copy_done: false,
        show_create_link: false,
        create_link_word: seq![],
        show_install_banner,
        words,
    }
}

/// The word a shared link's parameter gives, if there is a parameter and
/// it decodes to a playable word.
pub open spec fn shared_answer(param: Option<Seq<char>>) -> Option<Seq<char>> {
    match param {
        Some(p) => shared_word_of(p),
        None => None,
    }
}

/// Whether the install banner shows: it was not dismissed before and the
/// browser is a phone or tablet.
pub open spec fn banner_shown(dismissed: bool, user_agent: Option<Seq<char>>) -> bool {
    !dismissed && match user_agent {
        Some(ua) => install_instructions_for(ua) is Some,
        None => false,
    }
}

/// An optional string as characters.
pub open spec fn opt_view(o: Option<String>) -> Option<Seq<char>> {
    match o {
        Some(t) => Some(t@),
        None => None,
    }
}

/// Which part of the board a row belongs to.
#[derive(Clone, Copy, Debug, PartialEq, Eq, Structural)]
pub enum RowKind {
    Submitted,
    Current,
    Empty,
}

/// One row of the board: its kind and, per tile, the letter shown (if any)
/// and the tile's state.
pub struct BoardRow {
    pub kind: RowKind,
    pub tiles: Vec<(Option<char>, TileState)>,
}

impl BoardRow {
    pub open spec fn view(&self) -> (RowKind, Seq<(Option<char>, TileState)>) {
        (self.kind, self.tiles@)
    }
}

/// A submitted row's tiles: each letter of the word with its state (grey
/// where the row has no state for it).
pub open spec fn submitted_tiles(row: (Seq<char>, Seq<TileState>)) -> Seq<(Option<char>, TileState)> {
    Seq::new(
        row.0.len(),
        |i: int|
            (Some(row.0[i]), if i < row.1.len() {
                row.1[i]
            } else {
                TileState::Absent
            }),
    )
}

/// The row being typed: its letters as filled tiles, then empty ones.
pub open spec fn current_tiles(guess: Seq<char>) -> Seq<(Option<char>, TileState)> {
    Seq::new(
        WORD_LENGTH as nat,
        |i: int|
            if i < guess.len() {
                (Some(guess[i]), TileState::Filled)
            } else {
                (None, TileState::Empty)
            },
    )
}

/// An untouched row.
pub open spec fn empty_tiles() -> Seq<(Option<char>, TileState)> {
    Seq::new(WORD_LENGTH as nat, |i: int| (None::<char>, TileState::Empty))
}

/// The board: the submitted rows, then the row being typed while the game
/// is on and rows are left, then empty rows up to six.
pub open spec fn board_of(s: AppView) -> Seq<(RowKind, Seq<(Option<char>, TileState)>)> {
    let submitted = s.guesses.map_values(
        |r: (Seq<char>, Seq<TileState>)| (RowKind::Submitted, submitted_tiles(r)),
    );
    let with_current = if s.guesses.len() < MAX_GUESSES && s.status == GameStatus::Playing {
        submitted.push((RowKind::Current, current_tiles(s.current_guess)))
    } else {
        submitted
    };
    let empties = if with_current.len() < MAX_GUESSES {
        MAX_GUESSES - with_current.len()
    } else {
        0
    };
    with_current + Seq::new(empties as nat, |i: int| (RowKind::Empty, empty_tiles()))
}

/// The keyboard's style class for a letter.
pub open spec fn key_class_of(m: Map<char, TileState>, c: char) -> Seq<char> {
    match known(m, c) {
        Some(TileState::Correct) => "key correct"@,
        Some(TileState::Present) => "key present"@,
        Some(TileState::Absent) => "key absent"@,
        _ => "key"@,
    }
}

/// The error the challenge-link box shows: too short while typing, or a
/// five-letter word that is not on the list.
pub open spec fn create_link_error_of(s: AppView) -> Option<Seq<char>> {
    let w = s.create_link_word;
    if w.len() > 0 && w.len() < WORD_LENGTH {
        Some("Word must be 5 letters"@)
    } else if w.len() == WORD_LENGTH && !s.words.contains(w) {
        Some("Not in word list"@)
    } else {
        None
    }
}

/// The message for a key pressed on the physical keyboard: Enter, Backspace,
/// or a single ASCII letter; other keys are ignored.
pub fn message_for_key(key: String) -> (r: Option<Msg>)
    ensures
        if key@ == "Enter"@ {
            (r matches Some(Msg::Enter))
        } else if key@ == "Backspace"@ {
            (r matches Some(Msg::Backspace))
        } else if key@.len() == 1 && is_letter(key@[0]) {
            (r matches Some(Msg::KeyPress(k)) && k@ == key@)
        } else {
            r is None
        },
{
    if key == String::from_str("Enter") {
        return Some(Msg::Enter);
    }
    if key == String::from_str("Backspace") {
        return Some(Msg::Backspace);
    }
    let cs = chars_of(key.as_str());
    if cs.len() == 1 && crate::text::is_ascii_alphabetic(cs[0]) {
        Some(Msg::KeyPress(key))
    } else {
        None
    }
}

/// Reads every tile of every row into the keyboard's letter states.
fn update_letter_states(letters: &mut LetterStates, guesses: &Vec<GuessRow>)
    ensures
        final(letters)@ == apply_rows(old(letters)@, rows_of(guesses@), guesses@.len() as int),
{
    let ghost start = letters@;
    let ghost rows = rows_of(guesses@);
    let mut k: usize = 0;
    while k < guesses.len()
        invariant
            k <= guesses.len(),
            rows == rows_of(guesses@),
            letters@ == apply_rows(start, rows, k as int),
        decreases guesses.len() - k,
    {
        let row = &guesses[k];
        let word = chars_of(row.word.as_str());
        let ghost base = letters@;
        assert(rows[k as int] == (row.word@, row.states@));
        let mut i: usize = 0;
        while i < row.states.len()
            invariant
                i <= row.states.len(),
                word@ == row.word@,
                letters@ == apply_row(base, row.word@, row.states@, i as int),
            decreases row.states.len() - i,
        {
            let ch = if i < word.len() {
                word[i]
            } else {
                ' '
            };
            let state = row.states[i];
            let existing = letters.get(ch);
            let update = match existing {
                None => true,
                Some(TileState::Correct) => false,
                Some(TileState::Present) => state == TileState::Correct,
                Some(TileState::Absent) => state != TileState::Absent,
                _ => true,
            };
            if update {
                letters.insert(ch, state);
            }
            assert(ch == char_at(row.word@, i as int));
            i += 1;
        }
        k += 1;
    }
}

/// A lower-case word is its own lower-casing.
pub proof fn lemma_lower_word_lowercased(w: Seq<char>)
    requires
        is_lower_word(w),
    ensures
        lowercased(w) == w,
{
    assert(vstd::utf8::is_ascii_chars(w)) by {
        assert forall|i: int| 0 <= i < w.len() implies '\0' <= #[trigger] w[i] <= '\u{7f}' by {
            assert(is_lower_letter(w[i]));
        }
    }
    assert(w.map_values(|c: char| ascii_lower(c)) =~= w) by {
        assert forall|i: int| 0 <= i < w.len() implies #[trigger] ascii_lower(w[i]) == w[i] by {
            assert(is_lower_letter(w[i]));
        }
    }
}

/// In a well-formed session every clue that hard mode checks is in range.
proof fn lemma_clues_in_range(s: AppView)
    requires
        well_formed(s),
    ensures
        hard_mode_verdict_of(lowercased(s.current_guess), lowered(s.guesses))
            != HardModeVerdict::ClueOutOfRange,
{
    let rows = lowered(s.guesses);
    assert forall|j: int| 0 <= j < rows.len() implies (#[trigger] rows[j]).1.len()
        <= rows[j].0.len() by {
        assert(valid_row(s.guesses[j], s.answer));
        lemma_lower_word_lowercased(s.guesses[j].0);
        assert(rows[j] == (lowercased(s.guesses[j].0), s.guesses[j].1));
    }
    crate::hard_mode::lemma_rows_in_range(lowercased(s.current_guess), rows, 0);
}

/// What scoring a guess keeps of the session's invariant.
proof fn lemma_scored_facts(s: AppView)
    requires
        well_formed(s),
        s.status == GameStatus::Playing,
        s.current_guess.len() == WORD_LENGTH,
    ensures
        scored(s).guesses.len() == s.guesses.len() + 1,
        scored(s).guesses.last().1 == scored_tiles(s),
        forall|k: int| 0 <= k < scored(s).guesses.len() ==> valid_row(
            #[trigger] scored(s).guesses[k],
            scored(s).answer,
        ),
        no_win_before(scored(s).guesses, s.guesses.len() as int),
        keyboard_consistent(scored(s).letter_states, scored(s).guesses),
        (rows_follow_hard_mode(s.guesses) && hard_mode_verdict_of(
            lowercased(s.current_guess),
            lowered(s.guesses),
        ) == HardModeVerdict::Accepted) ==> rows_follow_hard_mode(scored(s).guesses),
{
    lemma_keyboard_after_scoring(s);
    lemma_lower_word_lowercased(s.current_guess);
    let t = scored(s);
    assert forall|k: int| 0 <= k < t.guesses.len() implies valid_row(#[trigger] t.guesses[k], t.answer) by {
        if k < s.guesses.len() {
            assert(t.guesses[k] == s.guesses[k]);
        }
    }
    assert forall|k: int| 0 <= k < s.guesses.len() implies !all_correct(#[trigger] t.guesses[k].1) by {
        assert(t.guesses[k] == s.guesses[k]);
        assert(no_win_before(s.guesses, s.guesses.len() as int));
    }
    if rows_follow_hard_mode(s.guesses) && hard_mode_verdict_of(
        lowercased(s.current_guess),
        lowered(s.guesses),
    ) == HardModeVerdict::Accepted {
        assert forall|k: int| 0 <= k < t.guesses.len() implies hard_mode_verdict_of(
            lowercased((#[trigger] t.guesses[k]).0),
            lowered(t.guesses.take(k)),
        ) == HardModeVerdict::Accepted by {
            if k < s.guesses.len() {
                assert(t.guesses[k] == s.guesses[k]);
                assert(t.guesses.take(k) =~= s.guesses.take(k));
                assert(hard_mode_verdict_of(lowercased(s.guesses[k].0), lowered(s.guesses.take(k)))
                    == HardModeVerdict::Accepted);
            } else {
                assert(t.guesses.take(k) =~= s.guesses);
            }
        }
    }
}

/// Submitting an accepted guess keeps the session's invariant.
proof fn lemma_submit_well_formed(s: AppView)
    requires
        well_formed(s),
        s.status == GameStatus::Playing,
        s.current_guess.len() == WORD_LENGTH,
        s.difficulty == Difficulty::Hard ==> hard_mode_verdict_of(
            lowercased(s.current_guess),
            lowered(s.guesses),
        ) == HardModeVerdict::Accepted,
    ensures
        well_formed(submit_step(s).0),
{
    lemma_scored_facts(s);
}

/// A copy of a row of tiles.
fn copy_states(states: &Vec<TileState>) -> (r: Vec<TileState>)
    ensures
        r@ == states@,
{
    let mut r: Vec<TileState> = Vec::new();
    let mut i: usize = 0;
    while i < states.len()
        invariant
            i <= states.len(),
            r@ == states@.take(i as int),
        decreases states.len() - i,
    {
        r.push(states[i]);
        i += 1;
        assert(r@ =~= states@.take(i as int));
    }
    assert(r@ =~= states@);
    r
}

impl App {
    /// The session satisfies its invariant.
    pub open spec fn wf(&self) -> bool {
        well_formed(self@)
    }

    /// Starts a session. The answer is the word of a shared link's parameter
    /// (`?w=`) when it decodes to a playable word, and otherwise a word
    /// drawn at random from the list; the difficulty and statistics are the
    /// stored ones; the install banner shows on a phone or tablet unless it
    /// was dismissed before.
    pub fn create(
        shared_param: Option<String>,
        difficulty: Difficulty,
        install_banner_dismissed: bool,
        user_agent: Option<String>,
        stats: Stats,
        words: WordList,
    ) -> (r: App)
        ensures
            r.wf(),
            r@ == initial_view(
                r@.answer,
                shared_answer(opt_view(shared_param)) is Some,
                difficulty,
                stats@,
                banner_shown(install_banner_dismissed, opt_view(user_agent)),
                words@,
            ),
            match shared_answer(opt_view(shared_param)) {
                Some(w) => r@.answer == w,
                None => may_pick(words@, r@.answer),
            },
    {
        let shared = match &shared_param {
            Some(p) => decode_word(p.as_str()),
            None => None,
        };
        let (answer, is_shared_game) = match shared {
            Some(word) => (word, true),
            None => (words.random_word(), false),
        };
        let show_install_banner = if install_banner_dismissed {
            false
        } else {
            match &user_agent {
                Some(ua) => install_instructions(ua.as_str()).is_some(),
                None => false,
            }
        };
        let r = App {
            answer,
            current_guess: String::new(),
            guesses: Vec::new(),
            status: GameStatus::Playing,
            difficulty,
            stats,
            message: None,
            show_stats: false,
            show_how_to_play: false,
            is_shared_game,
            letter_states: LetterStates::new(),
            copy_done: false,
            show_create_link: false,
            create_link_word: String::new(),
            show_install_banner,
            words,
        };
        proof {
            assert(rows_of(r.guesses@) =~= Seq::<(Seq<char>, Seq<TileState>)>::empty());
        }
        r
    }

    /// The board as rows of tiles.
    pub fn board(&self) -> (r: Vec<BoardRow>)
        requires
            self.wf(),
        ensures
            r@.map_values(|b: BoardRow| b.view()) == board_of(self@),
    {
        let ghost target = board_of(self@);
        let mut rows: Vec<BoardRow> = Vec::new();
        let mut k: usize = 0;
        while k < self.guesses.len()
            invariant
                k <= self.guesses.len(),
                self.guesses.len() <= MAX_GUESSES,
                rows@.len() == k,
                forall|j: int| 0 <= j < k ==> (#[trigger] rows@[j]).view() == (
                    RowKind::Submitted,
                    submitted_tiles(self@.guesses[j]),
                ),
            decreases self.guesses.len() - k,
        {
            let row = &self.guesses[k];
            let word = chars_of(row.word.as_str());
            let mut tiles: Vec<(Option<char>, TileState)> = Vec::new();
            let mut i: usize = 0;
            while i < word.len()
                invariant
                    i <= word.len(),
                    word@ == row.word@,
                    tiles@.len() == i,
                    forall|j: int| 0 <= j < i ==> #[trigger] tiles@[j] == submitted_tiles(row.view())[j],
                decreases word.len() - i,
            {
                let state = if i < row.states.len() {
                    row.states[i]
                } else {
                    TileState::Absent
                };
                tiles.push((Some(word[i]), state));
                i += 1;
            }
            assert(self@.guesses[k as int] == row.view());
            assert(tiles@ =~= submitted_tiles(row.view()));
            rows.push(BoardRow { kind: RowKind::Submitted, tiles });
            k += 1;
        }
        if self.guesses.len() < MAX_GUESSES && self.status == GameStatus::Playing {
            let guess = chars_of(self.current_guess.as_str());
            let mut tiles: Vec<(Option<char>, TileState)> = Vec::new();
            let mut i: usize = 0;
            while i < WORD_LENGTH
                invariant
                    i <= WORD_LENGTH,
                    guess@ == self@.current_guess,
                    tiles@.len() == i,
                    forall|j: int| 0 <= j < i ==> #[trigger] tiles@[j] == current_tiles(guess@)[j],
                decreases WORD_LENGTH - i,
            {
                if i < guess.len() {
                    tiles.push((Some(guess[i]), TileState::Filled));
                } else {
                    tiles.push((None, TileState::Empty));
                }
                i += 1;
            }
            assert(tiles@ =~= current_tiles(guess@));
            rows.push(BoardRow { kind: RowKind::Current, tiles });
        }
        let ghost before_empty = rows@.map_values(|b: BoardRow| b.view());
        let filled = rows.len();
        while rows.len() < MAX_GUESSES
            invariant
                filled <= MAX_GUESSES ==> filled <= rows@.len() <= MAX_GUESSES,
                filled > MAX_GUESSES ==> rows@.len() == filled,
                rows@.take(filled as int).map_values(|b: BoardRow| b.view()) == before_empty,
                forall|j: int| filled <= j < rows@.len() ==> (#[trigger] rows@[j]).view() == (
                    RowKind::Empty,
                    empty_tiles(),
                ),
            decreases MAX_GUESSES - rows.len(),
        {
            let mut tiles: Vec<(Option<char>, TileState)> = Vec::new();
            let mut i: usize = 0;
            while i < WORD_LENGTH
                invariant
                    i <= WORD_LENGTH,
                    tiles@.len() == i,
                    forall|j: int| 0 <= j < i ==> #[trigger] tiles@[j] == empty_tiles()[j],
                decreases WORD_LENGTH - i,
            {
                tiles.push((None, TileState::Empty));
                i += 1;
            }
            assert(tiles@ =~= empty_tiles());
            let ghost prev = rows@;
            rows.push(BoardRow { kind: RowKind::Empty, tiles });
            assert(rows@.take(filled as int) =~= prev.take(filled as int));
        }
        proof {
            let v = rows@.map_values(|b: BoardRow| b.view());
            assert(v.take(filled as int) =~= before_empty);
            assert(v =~= target) by {
                assert forall|j: int| 0 <= j < v.len() implies v[j] == target[j] by {
                    if j < filled {
                        assert(v[j] == v.take(filled as int)[j]);
                    }
                }
            }
        }
        rows
    }

    /// The word to guess.
    pub fn answer(&self) -> (r: &str)
        ensures
            r@ == self@.answer,
    {
        self.answer.as_str()
    }

    /// The letters typed so far.
    pub fn current_guess(&self) -> (r: &str)
        ensures
            r@ == self@.current_guess,
    {
        self.current_guess.as_str()
    }

    /// The submitted rows.
    pub fn guesses(&self) -> (r: &[GuessRow])
        ensures
            rows_of(r@) == self@.guesses,
    {
        self.guesses.as_slice()
    }

    /// Whether the game is on, won or lost.
    pub fn status(&self) -> (r: GameStatus)
        ensures
            r == self@.status,
    {
        self.status
    }

    /// The difficulty.
    pub fn difficulty(&self) -> (r: Difficulty)
        ensures
            r == self@.difficulty,
    {
        self.difficulty
    }

    /// The statistics.
    pub fn stats(&self) -> (r: &Stats)
        ensures
            r@ == self@.stats,
    {
        &self.stats
    }

    /// The message shown, if any.
    pub fn message(&self) -> (r: Option<&str>)
        ensures
            match self@.message {
                Some(m) => r matches Some(t) && t@ == m,
                None => r is None,
            },
    {
        match &self.message {
            Some(m) => Some(m.as_str()),
            None => None,
        }
    }

    /// Whether the statistics dialog is open.
    pub fn show_stats(&self) -> (r: bool)
        ensures
            r == self@.show_stats,
    {
        self.show_stats
    }

    /// Whether the how-to-play dialog is open.
    pub fn show_how_to_play(&self) -> (r: bool)
        ensures
            r == self@.show_how_to_play,
    {
        self.show_how_to_play
    }

    /// Whether the answer came from a shared link.
    pub fn is_shared_game(&self) -> (r: bool)
        ensures
            r == self@.is_shared_game,
    {
        self.is_shared_game
    }

    /// The copy-done flag.
    pub fn copy_done(&self) -> (r: bool)
        ensures
            r == self@.copy_done,
    {
        self.copy_done
    }

    /// Whether the challenge-link dialog is open.
    pub fn show_create_link(&self) -> (r: bool)
        ensures
            r == self@.show_create_link,
    {
        self.show_create_link
    }

    /// The word typed into the challenge-link dialog.
    pub fn create_link_word(&self) -> (r: &str)
        ensures
            r@ == self@.create_link_word,
    {
        self.create_link_word.as_str()
    }

    /// Whether the install banner shows.
    pub fn show_install_banner(&self) -> (r: bool)
        ensures
            r == self@.show_install_banner,
    {
        self.show_install_banner
    }

    /// What is known of a letter.
    pub fn letter_state(&self, c: char) -> (r: Option<TileState>)
        ensures
            r == known(self@.letter_states, c),
    {
        self.letter_states.get(c)
    }

    /// The keyboard's style class for a letter.
    pub fn key_class(&self, c: char) -> (r: &'static str)
        ensures
            r@ == key_class_of(self@.letter_states, c),
    {
        match self.letter_states.get(c) {
            Some(TileState::Correct) => "key correct",
            Some(TileState::Present) => "key present",
            Some(TileState::Absent) => "key absent",
            _ => "key",
        }
    }

    /// The link that starts a game with the current answer.
    pub fn build_share_url(&self, page: &PageLocation) -> (r: String)
        ensures
            r@ == url_for_word(page.origin@, page.pathname@, self@.answer),
    {
        build_url_for_word(page.origin.as_str(), page.pathname.as_str(), self.answer.as_str())
    }

    /// The error the challenge-link dialog shows, if any.
    pub fn create_link_error(&self) -> (r: Option<&'static str>)
        requires
            self.wf(),
        ensures
            match create_link_error_of(self@) {
                Some(e) => r matches Some(t) && t@ == e,
                None => r is None,
            },
    {
        let n = self.create_link_word.as_str().unicode_len();
        if n > 0 && n < WORD_LENGTH {
            Some("Word must be 5 letters")
        } else if n == WORD_LENGTH && !self.words.is_valid_word(self.create_link_word.as_str()) {
            Some("Not in word list")
        } else {
            None
        }
    }

    /// The challenge link for the dialog's word, once it is a listed
    /// five-letter word.
    pub fn create_link_url(&self, page: &PageLocation) -> (r: Option<String>)
        ensures
            if self@.create_link_word.len() == WORD_LENGTH && self@.words.contains(
                self@.create_link_word,
            ) {
                r matches Some(u) && u@ == url_for_word(
                    page.origin@,
                    page.pathname@,
                    self@.create_link_word,
                )
            } else {
                r is None
            },
    {
        if self.create_link_word.as_str().unicode_len() == WORD_LENGTH
            && self.words.is_valid_word(self.create_link_word.as_str()) {
            Some(
                build_url_for_word(
                    page.origin.as_str(),
                    page.pathname.as_str(),
                    self.create_link_word.as_str(),
                ),
            )
        } else {
            None
        }
    }

    /// The label of the difficulty button.
    pub fn difficulty_label(&self) -> (r: &'static str)
        ensures
            r@ == if self@.difficulty == Difficulty::Easy {
                "Easy"@
            } else {
                "Hard ★"@
            },
    {
        match self.difficulty {
            Difficulty::Easy => "Easy",
            Difficulty::Hard => "Hard ★",
        }
    }

    /// The style class of the difficulty button.
    pub fn difficulty_class(&self) -> (r: &'static str)
        ensures
            r@ == if self@.difficulty == Difficulty::Easy {
                "btn-action"@
            } else {
                "btn-action btn-action-hard"@
            },
    {
        match self.difficulty {
            Difficulty::Easy => "btn-action",
            Difficulty::Hard => "btn-action btn-action-hard",
        }
    }

    /// Whether entry `i` of the guess distribution is the game just won.
    pub fn is_current_distribution_entry(&self, i: usize) -> (r: bool)
        ensures
            r == (self@.status == GameStatus::Won && self@.guesses.len() == i + 1),
    {
        self.status == GameStatus::Won && self.guesses.len() >= 1 && self.guesses.len() - 1 == i
    }

    /// Whether an Enter now can count its result without overflowing a
    /// statistics counter (see `enter_fits`); `update` asks this of Enter.
    pub fn can_count_result(&self) -> (r: bool)
        requires
            self.wf(),
        ensures
            r == enter_fits(self@),
    {
        let ghost s = self@;
        if self.status != GameStatus::Playing {
            return true;
        }
        if self.current_guess.as_str().unicode_len() != WORD_LENGTH {
            return true;
        }
        if !self.words.is_valid_word(self.current_guess.as_str()) {
            return true;
        }
        if self.difficulty == Difficulty::Hard {
            let prev = self.previous_rows();
            proof {
                lemma_clues_in_range(s);
            }
            if validate_hard_mode(self.current_guess.as_str(), prev.as_slice()).is_some() {
                return true;
            }
        }
        let states = evaluate_guess(self.current_guess.as_str(), self.answer.as_str());
        let n = self.guesses.len() + 1;
        if Self::row_all_correct(&states) {
            let st = &self.stats;
            let dist_ok = if 1 <= n && n <= 6 {
                st.guess_distribution[n - 1] < u32::MAX
            } else {
                true
            };
            st.played < u32::MAX && st.won < u32::MAX && st.current_streak < u32::MAX && dist_ok
        } else if n >= MAX_GUESSES {
            self.stats.played < u32::MAX
        } else {
            true
        }
    }

    /// Shows a message, to be hidden by a later `Msg::HideMessage`.
    fn show_message(&mut self, text: String, effects: &mut Vec<Effect>)
        ensures
            final(self)@ == with_message(old(self)@, text@),
            effects_view(final(effects)@) == effects_view(old(effects)@).push(
                EffectView::HideMessageAfter(message_millis()),
            ),
    {
        self.message = Some(text);
        effects.push(Effect::HideMessageAfter(2000));
        proof {
            assert(effects_view(effects@) =~= effects_view(old(effects)@).push(
                EffectView::HideMessageAfter(message_millis()),
            ));
        }
    }

    fn key_press(&mut self, key: String) -> (r: bool)
        requires
            old(self).wf(),
        ensures
            final(self).wf(),
            (final(self)@, r, Seq::<EffectView>::empty()) == key_press_step(old(self)@, key@),
    {
        if self.status != GameStatus::Playing {
            return false;
        }
        if self.current_guess.as_str().unicode_len() < WORD_LENGTH {
            let lower = to_lowercase(key.as_str());
            let cs = chars_of(lower.as_str());
            let ch = if cs.len() > 0 {
                cs[0]
            } else {
                ' '
            };
            proof {
                if cs.len() > 0 {
                    assert(!('A' <= lower@[0] <= 'Z'));
                }
            }
            if crate::text::is_ascii_alphabetic(ch) {
                push_char(&mut self.current_guess, ch);
                proof {
                    let g = self.current_guess@;
                    assert forall|i: int| 0 <= i < g.len() implies is_lower_letter(#[trigger] g[i]) by {
                        if i < g.len() - 1 {
                            assert(g[i] == old(self)@.current_guess[i]);
                        }
                    }
                    assert(self@ == AppView { current_guess: old(self)@.current_guess.push(ch), ..old(self)@ });
                }
                return true;
            }
        }
        false
    }

    /// The rows as (word, tiles) pairs, for the hard-mode check.
    fn previous_rows(&self) -> (r: Vec<(String, Vec<TileState>)>)
        ensures
            lowered_rows(r@) == lowered(self@.guesses),
    {
        let mut r: Vec<(String, Vec<TileState>)> = Vec::new();
        let mut k: usize = 0;
        while k < self.guesses.len()
            invariant
                k <= self.guesses.len(),
                lowered_rows(r@) == lowered(self@.guesses).take(k as int),
            decreases self.guesses.len() - k,
        {
            let row = &self.guesses[k];
            let ghost before = r@;
            r.push((row.word.clone(), copy_states(&row.states)));
            k += 1;
            proof {
                assert(r@ == before.push(r@.last()));
                assert(lowered_rows(r@) =~= lowered_rows(before).push(
                    (lowercased(row.word@), row.states@),
                ));
                assert(self@.guesses[k - 1] == (row.word@, row.states@));
                assert(lowered(self@.guesses).take(k as int) =~= lowered(self@.guesses).take(
                    k - 1,
                ).push((lowercased(row.word@), row.states@)));
            }
        }
        assert(lowered(self@.guesses).take(k as int) =~= lowered(self@.guesses));
        r
    }

    /// Whether every tile of a row is green.
    fn row_all_correct(states: &Vec<TileState>) -> (r: bool)
        ensures
            r == all_correct(states@),
    {
        if states.len() != WORD_LENGTH {
            return false;
        }
        let mut i: usize = 0;
        while i < states.len()
            invariant
                i <= states.len(),
                forall|k: int| 0 <= k < i ==> states@[k] == TileState::Correct,
            decreases states.len() - i,
        {
            if states[i] != TileState::Correct {
                return false;
            }
            i += 1;
        }
        true
    }

    fn enter(&mut self, effects: &mut Vec<Effect>) -> (r: bool)
        requires
            old(self).wf(),
            enter_fits(old(self)@),
            old(effects)@.len() == 0,
        ensures
            final(self).wf(),
            (final(self)@, r, effects_view(final(effects)@)) == enter_step(old(self)@),
    {
        let ghost s = self@;
        proof {
            assert(effects_view(effects@) =~= Seq::<EffectView>::empty());
        }
        if self.status != GameStatus::Playing {
            return false;
        }
        if self.current_guess.as_str().unicode_len() != WORD_LENGTH {
            self.show_message(String::from_str("Not enough letters"), effects);
            return true;
        }
        if !self.words.is_valid_word(self.current_guess.as_str()) {
            self.show_message(String::from_str("Not in word list"), effects);
            return true;
        }
        if self.difficulty == Difficulty::Hard {
            let prev = self.previous_rows();
            proof {
                lemma_clues_in_range(s);
            }
            match validate_hard_mode(self.current_guess.as_str(), prev.as_slice()) {
                Some(err) => {
                    self.show_message(err, effects);
                    return true;
                },
                None => {},
            }
        }
        self.submit(effects)
    }

    /// Scores the current guess and adds it as a row.
    fn score_guess(&mut self) -> (states: Vec<TileState>)
        requires
            old(self).wf(),
            old(self)@.status == GameStatus::Playing,
            old(self)@.current_guess.len() == WORD_LENGTH,
        ensures
            final(self)@ == scored(old(self)@),
            states@ == scored_tiles(old(self)@),
    {
        let ghost s = self@;
        let states = evaluate_guess(self.current_guess.as_str(), self.answer.as_str());
        let word = self.current_guess.clone();
        let row_states = copy_states(&states);
        self.guesses.push(GuessRow { word: word, states: row_states });
        update_letter_states(&mut self.letter_states, &self.guesses);
        self.current_guess = String::new();
        proof {
            lemma_lower_word_lowercased(s.current_guess);
            assert(rows_of(self.guesses@) =~= s.guesses.push((s.current_guess, scored_tiles(s))));
        }
        states
    }

    /// Ends the game as won after `n` rows: counts the win, congratulates
    /// and asks for the statistics to be saved and shown.
    fn finish_won(&mut self, num: usize, effects: &mut Vec<Effect>)
        requires
            old(self).stats.has_room_for_win(num as int),
            old(effects)@.len() == 0,
        ensures
            final(self)@ == (AppView {
                status: GameStatus::Won,
                stats: old(self)@.stats.after_win(num as int),
                message: Some(win_text(num as int)),
                ..old(self)@
            }),
            effects_view(final(effects)@) == seq![
                EffectView::SaveStats,
                EffectView::HideMessageAfter(message_millis()),
                EffectView::ShowStatsAfter(stats_millis()),
            ],
    {
        self.status = GameStatus::Won;
        self.stats.record_win(num);
        effects.push(Effect::SaveStats);
        proof {
            assert(effects_view(effects@) =~= seq![EffectView::SaveStats]);
        }
        let text = if num == 1 {
            String::from_str("Genius! 🎉")
        } else if num == 2 {
            String::from_str("Magnificent! 🎉")
        } else if num == 3 {
            String::from_str("Impressive! 🎉")
        } else if num == 4 {
            String::from_str("Splendid! 🎉")
        } else if num == 5 {
            String::from_str("Great! 🎉")
        } else {
            String::from_str("Phew! 😅")
        };
        self.show_message(text, effects);
        let ghost mid = effects@;
        effects.push(Effect::ShowStatsAfter(2200));
        proof {
            assert(effects_view(effects@) =~= effects_view(mid).push(
                EffectView::ShowStatsAfter(stats_millis()),
            ));
        }
    }

    /// Ends the game as lost: counts the loss, shows the answer and asks for
    /// the statistics to be saved and shown.
    fn finish_lost(&mut self, effects: &mut Vec<Effect>)
        requires
            old(self).stats@.played < u32::MAX,
            old(effects)@.len() == 0,
        ensures
            final(self)@ == (AppView {
                status: GameStatus::Lost,
                stats: old(self)@.stats.after_loss(),
                message: Some(loss_text(old(self)@.answer)),
                ..old(self)@
            }),
            effects_view(final(effects)@) == seq![
                EffectView::SaveStats,
                EffectView::HideMessageAfter(message_millis()),
                EffectView::ShowStatsAfter(stats_millis()),
            ],
    {
        self.status = GameStatus::Lost;
        self.stats.record_loss();
        effects.push(Effect::SaveStats);
        proof {
            assert(effects_view(effects@) =~= seq![EffectView::SaveStats]);
        }
        let mut text = String::from_str("The word was ");
        let upper = to_uppercase(self.answer.as_str());
        text.append(upper.as_str());
        self.show_message(text, effects);
        let ghost mid = effects@;
        effects.push(Effect::ShowStatsAfter(2200));
        proof {
            assert(effects_view(effects@) =~= effects_view(mid).push(
                EffectView::ShowStatsAfter(stats_millis()),
            ));
        }
    }

    /// Scores an accepted guess and ends the game when it is over.
    fn submit(&mut self, effects: &mut Vec<Effect>) -> (r: bool)
        requires
            old(self).wf(),
            old(self)@.status == GameStatus::Playing,
            old(self)@.current_guess.len() == WORD_LENGTH,
            enter_fits(old(self)@),
            old(self)@.words.contains(old(self)@.current_guess),
            old(self)@.difficulty == Difficulty::Hard ==> !(hard_mode_verdict_of(
                lowercased(old(self)@.current_guess),
                lowered(old(self)@.guesses),
            ) is Rejected),
            old(effects)@.len() == 0,
        ensures
            final(self).wf(),
            (final(self)@, r, effects_view(final(effects)@)) == submit_step(old(self)@),
    {
        let ghost s = self@;
        proof {
            assert(effects_view(effects@) =~= Seq::<EffectView>::empty());
            assert(enter_step(s) == submit_step(s));
            lemma_clues_in_range(s);
            lemma_submit_well_formed(s);
        }
        let states = self.score_guess();
        let num = self.guesses.len();
        if Self::row_all_correct(&states) {
            self.finish_won(num, effects);
        } else if num >= MAX_GUESSES {
            self.finish_lost(effects);
        }
        true
    }

    fn new_game(&mut self)
        requires
            old(self).wf(),
        ensures
            final(self).wf(),
            final(self)@ == new_game_view(old(self)@, final(self)@.answer),
            may_pick(old(self)@.words, final(self)@.answer),
    {
        let new_answer = self.words.random_word();
        self.answer = new_answer;
        self.current_guess = String::new();
        self.guesses = Vec::new();
        self.status = GameStatus::Playing;
        self.message = None;
        self.show_stats = false;
        self.is_shared_game = false;
        self.letter_states.clear();
        proof {
            assert(rows_of(self.guesses@) =~= Seq::<(Seq<char>, Seq<TileState>)>::empty());
        }
    }

    /// Handles one message: changes the session as `step` says, reports
    /// whether the page must be redrawn, and lists the outside work to do.
    /// For `Msg::NewGame` the new answer is drawn at random from the word
    /// list.
    #[verifier::spinoff_prover]
    #[verifier::rlimit(40)]
    pub fn update(&mut self, msg: Msg, page: &PageLocation) -> (r: (bool, Vec<Effect>))
        requires
            old(self).wf(),
            msg is Enter ==> enter_fits(old(self)@),
        ensures
            final(self).wf(),
            step(old(self)@, msg, page.origin@, page.pathname@, final(self)@.answer) == (
                final(self)@,
                r.0,
                effects_view(r.1@),
            ),
            msg is NewGame ==> may_pick(old(self)@.words, final(self)@.answer),
    {
        let ghost s = self@;
        let ghost m = msg;
        let mut effects: Vec<Effect> = Vec::new();
        proof {
            assert(effects_view(effects@) =~= Seq::<EffectView>::empty());
        }
        let redraw = match msg {
            Msg::KeyPress(key) => self.key_press(key),
            Msg::Backspace => self.backspace(),
            Msg::Enter => self.enter(&mut effects),
            Msg::NewGame => {
                self.new_game();
                effects.push(Effect::ClearUrlQuery);
                proof {
                    assert(effects_view(effects@) =~= seq![EffectView::ClearUrlQuery]);
                }
                true
            },
            Msg::ShareUrl => self.share_url(page, &mut effects),
            Msg::ToggleDifficulty => self.toggle_difficulty(&mut effects),
            Msg::ShowStats => {
                self.show_stats = true;
                true
            },
            Msg::HideStats => {
                self.show_stats = false;
                true
            },
            Msg::ShowHowToPlay => {
                self.show_how_to_play = true;
                true
            },
            Msg::HideHowToPlay => {
                self.show_how_to_play = false;
                true
            },
            Msg::HideMessage => {
                self.message = None;
                true
            },
            Msg::CopyDone => {
                self.copy_done = false;
                true
            },
            Msg::ShowCreateLink => {
                self.show_create_link = true;
                self.create_link_word = String::new();
                true
            },
            Msg::HideCreateLink => {
                self.show_create_link = false;
                self.create_link_word = String::new();
                true
            },
            Msg::CreateLinkInput(raw) => self.create_link_input(raw),
            Msg::CopyCreateLink => self.copy_create_link(page, &mut effects),
            Msg::DismissInstallBanner => self.dismiss_install_banner(&mut effects),
        };
        (redraw, effects)
    }

    /// Like `update`, for any message: `None`, with the session unchanged,
    /// when the message is an Enter whose result would overflow a statistics
    /// counter (where counting it cannot proceed); otherwise `Some` of what
    /// `update` returns.
    pub fn try_update(&mut self, msg: Msg, page: &PageLocation) -> (r: Option<(bool, Vec<Effect>)>)
        requires
            old(self).wf(),
        ensures
            final(self).wf(),
            r is None <==> (msg is Enter && !enter_fits(old(self)@)),
            r is None ==> final(self)@ == old(self)@,
            r matches Some(out) ==> step(old(self)@, msg, page.origin@, page.pathname@, final(self)@.answer)
                == (final(self)@, out.0, effects_view(out.1@)),
            r is Some && msg is NewGame ==> may_pick(old(self)@.words, final(self)@.answer),
    {
        let is_enter = match &msg {
            Msg::Enter => true,
            _ => false,
        };
        if is_enter && !self.can_count_result() {
            return None;
        }
        Some(self.update(msg, page))
    }

    fn share_url(&mut self, page: &PageLocation, effects: &mut Vec<Effect>) -> (r: bool)
        requires
            old(self).wf(),
            old(effects)@.len() == 0,
        ensures
            final(self).wf(),
            step(old(self)@, Msg::ShareUrl, page.origin@, page.pathname@, old(self)@.answer) == (
                final(self)@,
                r,
                effects_view(final(effects)@),
            ),
    {
        let ghost s = self@;
        let url = build_url_for_word(page.origin.as_str(), page.pathname.as_str(), self.answer.as_str());
        effects.push(Effect::CopyToClipboard(url));
        self.show_message(String::from_str("Link copied! 🔗"), effects);
        proof {
            assert(effects_view(effects@) =~= seq![
                EffectView::CopyToClipboard(url_for_word(page.origin@, page.pathname@, s.answer)),
                EffectView::HideMessageAfter(message_millis()),
            ]);
        }
        true
    }

    fn toggle_difficulty(&mut self, effects: &mut Vec<Effect>) -> (r: bool)
        requires
            old(self).wf(),
            old(effects)@.len() == 0,
        ensures
            final(self).wf(),
            step(old(self)@, Msg::ToggleDifficulty, seq![], seq![], old(self)@.answer) == (
                final(self)@,
                r,
                effects_view(final(effects)@),
            ),
    {
        if self.guesses.len() == 0 {
            self.difficulty = match self.difficulty {
                Difficulty::Easy => Difficulty::Hard,
                Difficulty::Hard => Difficulty::Easy,
            };
            effects.push(Effect::SaveDifficulty);
            proof {
                assert(effects_view(effects@) =~= seq![EffectView::SaveDifficulty]);
            }
        } else {
            proof {
                assert(effects_view(effects@) =~= Seq::<EffectView>::empty());
            }
            self.show_message(String::from_str("Cannot change difficulty mid-game"), effects);
        }
        true
    }

    fn create_link_input(&mut self, raw: String) -> (r: bool)
        requires
            old(self).wf(),
        ensures
            final(self).wf(),
            final(self)@ == (AppView { create_link_word: link_input_word(raw@), ..old(self)@ }),
            r,
    {
        let filtered = filter_link_input(raw.as_str());
        self.create_link_word = filtered;
        proof {
            crate::page::lemma_link_input_word_shape(raw@);
        }
        true
    }

    fn copy_create_link(&mut self, page: &PageLocation, effects: &mut Vec<Effect>) -> (r: bool)
        requires
            old(self).wf(),
            old(effects)@.len() == 0,
        ensures
            final(self).wf(),
            step(old(self)@, Msg::CopyCreateLink, page.origin@, page.pathname@, old(self)@.answer)
                == (final(self)@, r, effects_view(final(effects)@)),
    {
        let ghost s = self@;
        proof {
            assert(effects_view(effects@) =~= Seq::<EffectView>::empty());
        }
        if !self.words.is_valid_word(self.create_link_word.as_str()) {
            return false;
        }
        let url = build_url_for_word(
            page.origin.as_str(),
            page.pathname.as_str(),
            self.create_link_word.as_str(),
        );
        effects.push(Effect::CopyToClipboard(url));
        self.show_message(String::from_str("Challenge link copied! 🔗"), effects);
        proof {
            assert(effects_view(effects@) =~= seq![
                EffectView::CopyToClipboard(url_for_word(page.origin@, page.pathname@, s.create_link_word)),
                EffectView::HideMessageAfter(message_millis()),
            ]);
        }
        true
    }

    fn dismiss_install_banner(&mut self, effects: &mut Vec<Effect>) -> (r: bool)
        requires
            old(self).wf(),
            old(effects)@.len() == 0,
        ensures
            final(self).wf(),
            step(old(self)@, Msg::DismissInstallBanner, seq![], seq![], old(self)@.answer) == (
                final(self)@,
                r,
                effects_view(final(effects)@),
            ),
    {
        self.show_install_banner = false;
        effects.push(Effect::SaveInstallBannerDismissed);
        proof {
            assert(effects_view(effects@) =~= seq![EffectView::SaveInstallBannerDismissed]);
        }
        true
    }

    fn backspace(&mut self) -> (r: bool)
        requires
            old(self).wf(),
        ensures
            final(self).wf(),
            (final(self)@, r, Seq::<EffectView>::empty()) == backspace_step(old(self)@),
    {
        if self.status != GameStatus::Playing {
            return false;
        }
        let _ = pop_char(&mut self.current_guess);
        proof {
            let g = self.current_guess@;
            assert forall|i: int| 0 <= i < g.len() implies is_lower_letter(#[trigger] g[i]) by {
                assert(g[i] == old(self)@.current_guess[i]);
            }
        }
        true
    }
}

/// Once a game is won or lost, typing, deleting and submitting change
/// nothing.
pub proof fn law_finished_game_ignores_play(s: AppView, key: String, origin: Seq<char>, pathname: Seq<char>, fresh: Seq<char>)
    requires
        s.status != GameStatus::Playing,
    ensures
        step(s, Msg::KeyPress(key), origin, pathname, fresh) == unchanged(s),
        step(s, Msg::Backspace, origin, pathname, fresh) == unchanged(s),
        step(s, Msg::Enter, origin, pathname, fresh) == unchanged(s),
{
}

/// A change that leaves the game itself alone (the answer, the guess being
/// typed, the rows, the status, the statistics' shape, the difficulty, the
/// keyboard and the challenge word) keeps the invariant.
proof fn lemma_same_game_keeps(s: AppView, t: AppView)
    requires
        well_formed(s),
        t.answer == s.answer,
        t.current_guess == s.current_guess,
        t.guesses == s.guesses,
        t.status == s.status,
        t.stats.guess_distribution.len() == s.stats.guess_distribution.len(),
        t.difficulty == s.difficulty || t.guesses.len() == 0,
        t.letter_states == s.letter_states,
        t.create_link_word == s.create_link_word,
    ensures
        well_formed(t),
{
}

proof fn lemma_key_press_keeps(s: AppView, key: Seq<char>)
    requires
        well_formed(s),
    ensures
        well_formed(key_press_step(s, key).0),
{
    let t = key_press_step(s, key).0;
    assert forall|i: int| 0 <= i < t.current_guess.len() implies is_lower_letter(
        #[trigger] t.current_guess[i],
    ) by {
        if i < s.current_guess.len() {
            assert(t.current_guess[i] == s.current_guess[i]);
        }
    }
}

proof fn lemma_backspace_keeps(s: AppView)
    requires
        well_formed(s),
    ensures
        well_formed(backspace_step(s).0),
{
    let t = backspace_step(s).0;
    assert forall|i: int| 0 <= i < t.current_guess.len() implies is_lower_letter(
        #[trigger] t.current_guess[i],
    ) by {
        assert(t.current_guess[i] == s.current_guess[i]);
    }
}

proof fn lemma_enter_keeps(s: AppView)
    requires
        well_formed(s),
    ensures
        well_formed(enter_step(s).0),
{
    if s.status == GameStatus::Playing && s.current_guess.len() == WORD_LENGTH && s.words.contains(
        s.current_guess,
    ) {
        lemma_clues_in_range(s);
        if !(s.difficulty == Difficulty::Hard && hard_mode_verdict_of(
            lowercased(s.current_guess),
            lowered(s.guesses),
        ) is Rejected) {
            lemma_submit_well_formed(s);
        } else {
            lemma_same_game_keeps(s, enter_step(s).0);
        }
    } else {
        lemma_same_game_keeps(s, enter_step(s).0);
    }
}

proof fn lemma_new_game_keeps(s: AppView, fresh: Seq<char>)
    requires
        well_formed(s),
    ensures
        well_formed(new_game_view(s, fresh)),
{
}

/// Every message keeps the session's invariant: whatever is typed,
/// submitted, toggled or opened, the guess being typed stays at most five
/// lower-case letters, there are at most six rows, each scored against the
/// answer, the game's status agrees with its rows, and the keyboard agrees
/// with the board. A new game may draw any word.
#[verifier::spinoff_prover]
pub proof fn law_every_step_keeps_well_formed(s: AppView, msg: Msg, origin: Seq<char>, pathname: Seq<char>, fresh: Seq<char>)
    requires
        well_formed(s),
    ensures
        well_formed(step(s, msg, origin, pathname, fresh).0),
{
    match msg {
        Msg::KeyPress(key) => lemma_key_press_keeps(s, key@),
        Msg::Backspace => lemma_backspace_keeps(s),
        Msg::Enter => lemma_enter_keeps(s),
        Msg::NewGame => lemma_new_game_keeps(s, fresh),
        Msg::ShareUrl => lemma_same_game_keeps(s, with_message(s, "Link copied! 🔗"@)),
        Msg::ToggleDifficulty => {
            let t = step(s, msg, origin, pathname, fresh).0;
            lemma_same_game_keeps(s, t);
        },
        Msg::ShowStats => lemma_same_game_keeps(s, AppView { show_stats: true, ..s }),
        Msg::HideStats => lemma_same_game_keeps(s, AppView { show_stats: false, ..s }),
        Msg::ShowHowToPlay => lemma_same_game_keeps(s, AppView { show_how_to_play: true, ..s }),
        Msg::HideHowToPlay => lemma_same_game_keeps(s, AppView { show_how_to_play: false, ..s }),
        Msg::HideMessage => lemma_same_game_keeps(s, AppView { message: None, ..s }),
        Msg::CopyDone => lemma_same_game_keeps(s, AppView { copy_done: false, ..s }),
        Msg::ShowCreateLink => {},
        Msg::HideCreateLink => {},
        Msg::CreateLinkInput(raw) => {
            crate::page::lemma_link_input_word_shape(raw@);
        },
        Msg::CopyCreateLink => {
            lemma_same_game_keeps(s, with_message(s, "Challenge link copied! 🔗"@));
        },
        Msg::DismissInstallBanner => lemma_same_game_keeps(
            s,
            AppView { show_install_banner: false, ..s },
        ),
    }
}

/// Backspace takes back a typed letter: while a game is on, a letter key
/// pressed on a guess of fewer than five letters, followed by Backspace,
/// leaves the session as it was.
pub proof fn law_backspace_undoes_key_press(s: AppView, key: Seq<char>)
    requires
        s.status == GameStatus::Playing,
        s.current_guess.len() < WORD_LENGTH,
        is_lower_letter(first_or_space(lowercased(key))),
    ensures
        backspace_step(key_press_step(s, key).0).0 == s,
{
    let t = key_press_step(s, key).0;
    assert(t.current_guess.drop_last() =~= s.current_guess);
}

/// The difficulty can only be switched before the first guess; later the
/// request is refused with a message.
pub proof fn law_difficulty_locked_after_first_guess(s: AppView, origin: Seq<char>, pathname: Seq<char>, fresh: Seq<char>)
    requires
        s.guesses.len() > 0,
    ensures
        step(s, Msg::ToggleDifficulty, origin, pathname, fresh).0.difficulty == s.difficulty,
        step(s, Msg::ToggleDifficulty, origin, pathname, fresh).0.message == Some(
            "Cannot change difficulty mid-game"@,
        ),
{
}

/// Every game is counted once, when it ends: the step that wins it records
/// a win with its number of guesses, the step that loses it records a loss,
/// and no other step touches the statistics.
pub proof fn law_stats_count_each_game_once(s: AppView, msg: Msg, origin: Seq<char>, pathname: Seq<char>, fresh: Seq<char>)
    ensures
        ({
            let t = step(s, msg, origin, pathname, fresh).0;
            &&& (s.status == GameStatus::Playing && t.status == GameStatus::Won) ==> t.stats
                == s.stats.after_win(t.guesses.len() as int)
            &&& (s.status == GameStatus::Playing && t.status == GameStatus::Lost) ==> t.stats
                == s.stats.after_loss()
            &&& !(s.status == GameStatus::Playing && t.status != GameStatus::Playing) ==> t.stats
                == s.stats
        }),
{
}

/// In hard mode every row of a session reuses all the clues of the rows
/// before it: each green letter at its position, each yellow letter
/// somewhere in the word.
pub proof fn law_hard_mode_rows_reuse_clues(s: AppView, k: int)
    requires
        well_formed(s),
        s.difficulty == Difficulty::Hard,
        0 <= k < s.guesses.len(),
    ensures
        crate::hard_mode::clues_respected(s.guesses[k].0, lowered(s.guesses.take(k))),
{
    lemma_lower_word_lowercased(s.guesses[k].0);
    assert(valid_row(s.guesses[k], s.answer));
    crate::hard_mode::law_hard_mode_accepts_iff_clues_respected(
        s.guesses[k].0,
        lowered(s.guesses.take(k)),
    );
}

/// The rank of a letter's known state: green over yellow over grey over
/// anything else.
pub open spec fn rank(st: Option<TileState>) -> int {
    match st {
        Some(TileState::Correct) => 3,
        Some(TileState::Present) => 2,
        Some(TileState::Absent) => 1,
        _ => 0,
    }
}

/// A tile the scoring can produce.
pub open spec fn is_scored(st: TileState) -> bool {
    st == TileState::Correct || st == TileState::Present || st == TileState::Absent
}

proof fn lemma_apply_tile_rank(m: Map<char, TileState>, c: char, st: TileState, d: char)
    requires
        is_scored(st),
    ensures
        rank(known(apply_tile(m, c, st), d)) == if d == c {
            if rank(known(m, c)) >= rank(Some(st)) {
                rank(known(m, c))
            } else {
                rank(Some(st))
            }
        } else {
            rank(known(m, d))
        },
{
}

proof fn lemma_apply_row_rank(m: Map<char, TileState>, word: Seq<char>, states: Seq<TileState>, n: int)
    requires
        0 <= n <= states.len(),
        forall|i: int| 0 <= i < states.len() ==> is_scored(#[trigger] states[i]),
    ensures
        forall|d: char| #[trigger] rank(known(apply_row(m, word, states, n), d)) >= rank(known(m, d)),
        forall|i: int|
            0 <= i < n ==> rank(known(apply_row(m, word, states, n), char_at(word, i))) >= rank(
                Some(#[trigger] states[i]),
            ),
    decreases n,
{
    if n > 0 {
        lemma_apply_row_rank(m, word, states, n - 1);
        let prev = apply_row(m, word, states, n - 1);
        assert forall|d: char| #[trigger] rank(known(apply_row(m, word, states, n), d)) >= rank(known(prev, d)) by {
            lemma_apply_tile_rank(prev, char_at(word, n - 1), states[n - 1], d);
        }
        assert forall|d: char| #[trigger] rank(known(apply_row(m, word, states, n), d)) >= rank(known(m, d)) by {
            lemma_apply_tile_rank(prev, char_at(word, n - 1), states[n - 1], d);
        }
        assert forall|i: int|
            0 <= i < n implies rank(known(apply_row(m, word, states, n), char_at(word, i))) >= rank(
                Some(#[trigger] states[i]),
            ) by {
            lemma_apply_tile_rank(prev, char_at(word, n - 1), states[n - 1], char_at(word, i));
        }
    }
}

/// Every tile on the board of a well-formed session is green, yellow or
/// grey, so the keyboard law above applies to its rows.
pub proof fn law_session_tiles_are_scored(s: AppView)
    requires
        well_formed(s),
    ensures
        forall|j: int, i: int|
            0 <= j < s.guesses.len() && 0 <= i < s.guesses[j].1.len() ==> is_scored(
                #[trigger] s.guesses[j].1[i],
            ),
{
    assert forall|j: int, i: int|
        0 <= j < s.guesses.len() && 0 <= i < s.guesses[j].1.len() implies is_scored(
            #[trigger] s.guesses[j].1[i],
        ) by {
        assert(valid_row(s.guesses[j], s.answer));
    }
}

/// The keyboard keeps the best news about each letter: after reading rows
/// of scored tiles, no letter's key is worse than any tile it earned, and
/// no key got worse than it was.
pub proof fn law_keyboard_keeps_best(m: Map<char, TileState>, rows: Seq<(Seq<char>, Seq<TileState>)>, k: int)
    requires
        0 <= k <= rows.len(),
        forall|j: int, i: int|
            0 <= j < rows.len() && 0 <= i < rows[j].1.len() ==> is_scored(#[trigger] rows[j].1[i]),
    ensures
        forall|d: char| #[trigger] rank(known(apply_rows(m, rows, k), d)) >= rank(known(m, d)),
        forall|j: int, i: int|
            0 <= j < k && 0 <= i < rows[j].1.len() ==> rank(
                known(apply_rows(m, rows, k), char_at(rows[j].0, i)),
            ) >= rank(Some(#[trigger] rows[j].1[i])),
    decreases k,
{
    if k > 0 {
        law_keyboard_keeps_best(m, rows, k - 1);
        let prev = apply_rows(m, rows, k - 1);
        let row = rows[k - 1];
        assert forall|i: int| 0 <= i < row.1.len() implies is_scored(#[trigger] row.1[i]) by {
            assert(is_scored(rows[k - 1].1[i]));
        }
        lemma_apply_row_rank(prev, row.0, row.1, row.1.len() as int);
        assert forall|j: int, i: int|
            0 <= j < k && 0 <= i < rows[j].1.len() implies rank(
                known(apply_rows(m, rows, k), char_at(rows[j].0, i)),
            ) >= rank(Some(#[trigger] rows[j].1[i])) by {
            if j < k - 1 {
                assert(rank(known(prev, char_at(rows[j].0, i))) >= rank(Some(rows[j].1[i])));
            }
        }
    }
}

proof fn lemma_apply_row_origin(m: Map<char, TileState>, word: Seq<char>, states: Seq<TileState>, n: int)
    requires
        0 <= n <= states.len(),
    ensures
        forall|d: char| #[trigger] apply_row(m, word, states, n).dom().contains(d) ==> (m.dom().contains(d)
            && apply_row(m, word, states, n)[d] == m[d]) || exists|i: int|
            0 <= i < n && char_at(word, i) == d && #[trigger] states[i] == apply_row(
                m,
                word,
                states,
                n,
            )[d],
    decreases n,
{
    if n > 0 {
        lemma_apply_row_origin(m, word, states, n - 1);
        let prev = apply_row(m, word, states, n - 1);
        let cur = apply_row(m, word, states, n);
        assert forall|d: char| #[trigger] cur.dom().contains(d) implies (m.dom().contains(d) && cur[d]
            == m[d]) || exists|i: int| 0 <= i < n && char_at(word, i) == d && #[trigger] states[i] == cur[d] by {
            if d == char_at(word, n - 1) && should_update_at(prev, d, states[n - 1]) {
                assert(cur[d] == states[n - 1]);
            } else {
                assert(prev.dom().contains(d) && cur[d] == prev[d]);
                if !(m.dom().contains(d) && prev[d] == m[d]) {
                    let i = choose|i: int| 0 <= i < n - 1 && char_at(word, i) == d && #[trigger] states[i] == prev[d];
                    assert(states[i] == cur[d]);
                }
            }
        }
    }
}

/// Whether reading a tile in `state` for the letter `d` changes what is
/// known of it.
pub open spec fn should_update_at(m: Map<char, TileState>, d: char, state: TileState) -> bool {
    crate::keyboard::should_update(known(m, d), state)
}

proof fn lemma_apply_rows_origin(m: Map<char, TileState>, rows: Seq<(Seq<char>, Seq<TileState>)>, k: int)
    requires
        0 <= k <= rows.len(),
    ensures
        forall|d: char| #[trigger] apply_rows(m, rows, k).dom().contains(d) ==> (m.dom().contains(d)
            && apply_rows(m, rows, k)[d] == m[d]) || from_tile(rows, d, apply_rows(m, rows, k)[d]),
    decreases k,
{
    if k > 0 {
        lemma_apply_rows_origin(m, rows, k - 1);
        let prev = apply_rows(m, rows, k - 1);
        let row = rows[k - 1];
        lemma_apply_row_origin(prev, row.0, row.1, row.1.len() as int);
        let cur = apply_rows(m, rows, k);
        assert forall|d: char| #[trigger] cur.dom().contains(d) implies (m.dom().contains(d) && cur[d]
            == m[d]) || from_tile(rows, d, cur[d]) by {
            if prev.dom().contains(d) && cur[d] == prev[d] {
            } else {
                let i = choose|i: int|
                    0 <= i < row.1.len() && char_at(row.0, i) == d && #[trigger] row.1[i] == cur[d];
                assert(rows[k - 1].1[i] == cur[d]);
            }
        }
    }
}

/// Scoring a guess keeps the keyboard consistent with the board.
proof fn lemma_keyboard_after_scoring(s: AppView)
    requires
        well_formed(s),
        s.status == GameStatus::Playing,
        s.current_guess.len() == WORD_LENGTH,
    ensures
        keyboard_consistent(scored(s).letter_states, scored(s).guesses),
{
    let t = scored(s);
    let rows = t.guesses;
    assert forall|j: int, i: int| 0 <= j < rows.len() && 0 <= i < rows[j].1.len() implies is_scored(
        #[trigger] rows[j].1[i],
    ) by {
        if j < s.guesses.len() {
            assert(rows[j] == s.guesses[j]);
            assert(valid_row(s.guesses[j], s.answer));
        } else {
            assert(rows[j].1 == scored_tiles(s));
        }
    }
    law_keyboard_keeps_best(s.letter_states, rows, rows.len() as int);
    lemma_apply_rows_origin(s.letter_states, rows, rows.len() as int);
    assert forall|c: char| #[trigger] t.letter_states.dom().contains(c) implies from_tile(
        rows,
        c,
        t.letter_states[c],
    ) by {
        if s.letter_states.dom().contains(c) && t.letter_states[c] == s.letter_states[c] {
            assert(from_tile(s.guesses, c, s.letter_states[c]));
            let (j, i) = choose|j: int, i: int|
                0 <= j < s.guesses.len() && 0 <= i < s.guesses[j].1.len() && char_at(s.guesses[j].0, i)
                    == c && #[trigger] s.guesses[j].1[i] == s.letter_states[c];
            assert(rows[j] == s.guesses[j]);
            assert(rows[j].1[i] == t.letter_states[c]);
        }
    }
}

/// Each key shows the best state its letter has earned on the board: a
/// known letter's state is that of one of its tiles, and none of its tiles
/// ranks higher.
pub proof fn law_keyboard_shows_best_tile(s: AppView, c: char)
    requires
        well_formed(s),
    ensures
        s.letter_states.dom().contains(c) ==> from_tile(s.guesses, c, s.letter_states[c]),
        forall|j: int, i: int|
            0 <= j < s.guesses.len() && 0 <= i < s.guesses[j].1.len() && char_at(s.guesses[j].0, i)
                == c ==> rank(known(s.letter_states, c)) >= rank(Some(#[trigger] s.guesses[j].1[i])),
{
}

/// The board has six rows: first each submitted row, showing every letter of
/// its word with exactly the state the scoring gave that position (grey
/// where the row has no state); then, while the game is on and rows are
/// left, the row being typed, its letters as filled tiles followed by empty
/// ones; then untouched rows of five empty tiles.
pub proof fn law_board_shows_rows(s: AppView)
    requires
        s.guesses.len() <= MAX_GUESSES,
    ensures
        board_of(s).len() == MAX_GUESSES,
        forall|j: int|
            0 <= j < s.guesses.len() ==> (#[trigger] board_of(s)[j]).0 == RowKind::Submitted
                && board_of(s)[j].1.len() == s.guesses[j].0.len(),
        forall|j: int, i: int|
            0 <= j < s.guesses.len() && 0 <= i < s.guesses[j].0.len() ==> #[trigger] board_of(
                s,
            )[j].1[i] == (Some(s.guesses[j].0[i]), if i < s.guesses[j].1.len() {
                s.guesses[j].1[i]
            } else {
                TileState::Absent
            }),
        s.status == GameStatus::Playing && s.guesses.len() < MAX_GUESSES ==> {
            let row = board_of(s)[s.guesses.len() as int];
            &&& row.0 == RowKind::Current
            &&& row.1.len() == WORD_LENGTH
            &&& forall|i: int|
                0 <= i < WORD_LENGTH ==> #[trigger] row.1[i] == if i < s.current_guess.len() {
                    (Some(s.current_guess[i]), TileState::Filled)
                } else {
                    (None, TileState::Empty)
                }
        },
        forall|j: int|
            (if s.status == GameStatus::Playing && s.guesses.len() < MAX_GUESSES {
                s.guesses.len() + 1int
            } else {
                s.guesses.len() as int
            }) <= j < MAX_GUESSES ==> (#[trigger] board_of(s)[j]).0 == RowKind::Empty
                && board_of(s)[j].1.len() == WORD_LENGTH && forall|i: int|
                0 <= i < WORD_LENGTH ==> #[trigger] board_of(s)[j].1[i] == (
                    None::<char>,
                    TileState::Empty,
                ),
{
    let b = board_of(s);
    assert forall|j: int, i: int|
        0 <= j < s.guesses.len() && 0 <= i < s.guesses[j].0.len() implies #[trigger] b[j].1[i]
        == (Some(s.guesses[j].0[i]), if i < s.guesses[j].1.len() {
        s.guesses[j].1[i]
    } else {
        TileState::Absent
    }) by {
        assert(b[j].1 == submitted_tiles(s.guesses[j]));
    }
}

/// A key is drawn in the colour its letter has earned, with the same class
/// a tile in that state gets: a green, yellow or grey letter's key is `key`
/// followed by that tile's class; a letter not yet seen is a plain `key`.
/// So keys of letters whose known states differ never look alike.
pub proof fn law_key_class_matches_tile(m: Map<char, TileState>, c: char, d: char)
    ensures
        match known(m, c) {
            Some(st) => is_scored(st) ==> key_class_of(m, c) == "key "@ + crate::page::tile_class(st),
            None => key_class_of(m, c) == "key"@,
        },
        rank(known(m, c)) != rank(known(m, d)) ==> key_class_of(m, c) != key_class_of(m, d),
{
    reveal_strlit("key ");
    reveal_strlit("key");
    reveal_strlit("key correct");
    reveal_strlit("key present");
    reveal_strlit("key absent");
    reveal_strlit("correct");
    reveal_strlit("present");
    reveal_strlit("absent");
    assert("key "@ + "correct"@ =~= "key correct"@);
    assert("key "@ + "present"@ =~= "key present"@);
    assert("key "@ + "absent"@ =~= "key absent"@);
    let (x, y) = (key_class_of(m, c), key_class_of(m, d));
    if rank(known(m, c)) != rank(known(m, d)) && x.len() == y.len() && x.len() > 4 {
        assert(x[4] != y[4]);
    }
}

/// The challenge link carries the chosen word: copying it for a listed
/// five-letter word puts on the clipboard the page's address with a `?w=`
/// parameter that decodes to that very word (not to the answer), and shows a
/// message; for a word that is not listed nothing happens.
pub proof fn law_challenge_link_carries_chosen_word(s: AppView, origin: Seq<char>, pathname: Seq<char>, fresh: Seq<char>)
    requires
        is_lower_word(s.create_link_word),
        s.create_link_word.len() == WORD_LENGTH,
    ensures
        s.words.contains(s.create_link_word) ==> exists|e: Seq<char>|
            #[trigger] shared_word_of(e) == Some(s.create_link_word) && step(
                s,
                Msg::CopyCreateLink,
                origin,
                pathname,
                fresh,
            ).2 == seq![
                EffectView::CopyToClipboard(origin + pathname + "?w="@ + e),
                EffectView::HideMessageAfter(message_millis()),
            ],
        !s.words.contains(s.create_link_word) ==> step(s, Msg::CopyCreateLink, origin, pathname, fresh)
            == (s, false, Seq::<EffectView>::empty()),
{
    let w = s.create_link_word;
    let e = crate::share::base64_url_encoding(vstd::utf8::encode_utf8(w));
    crate::share::law_shared_word_round_trip(w);
    assert(shared_word_of(e) == Some(w));
}

/// The share link carries the answer: the clipboard gets the page's address
/// with a `?w=` parameter that decodes to the game's answer (a five-letter
/// lower-case word).
pub proof fn law_share_link_carries_answer(s: AppView, origin: Seq<char>, pathname: Seq<char>, fresh: Seq<char>)
    requires
        is_lower_word(s.answer),
        s.answer.len() == WORD_LENGTH,
    ensures
        exists|e: Seq<char>|
            #[trigger] shared_word_of(e) == Some(s.answer) && step(
                s,
                Msg::ShareUrl,
                origin,
                pathname,
                fresh,
            ).2 == seq![
                EffectView::CopyToClipboard(origin + pathname + "?w="@ + e),
                EffectView::HideMessageAfter(message_millis()),
            ],
{
    let e = crate::share::base64_url_encoding(vstd::utf8::encode_utf8(s.answer));
    crate::share::law_shared_word_round_trip(s.answer);
    assert(shared_word_of(e) == Some(s.answer));
}

/// Submitting an acceptable guess while the game is on adds exactly one row:
/// the typed word with the tiles that scoring it against the answer gives;
/// the earlier rows stay, the typing line is cleared, and the game is won
/// exactly when that row is all green, lost exactly when it is the sixth
/// row and not all green, and goes on otherwise.
pub proof fn law_enter_adds_one_scored_row(s: AppView, origin: Seq<char>, pathname: Seq<char>, fresh: Seq<char>)
    requires
        s.status == GameStatus::Playing,
        s.current_guess.len() == WORD_LENGTH,
        s.words.contains(s.current_guess),
        s.difficulty == Difficulty::Hard ==> hard_mode_verdict_of(
            lowercased(s.current_guess),
            lowered(s.guesses),
        ) == HardModeVerdict::Accepted,
    ensures
        ({
            let (t, redraw, _) = step(s, Msg::Enter, origin, pathname, fresh);
            let row = (s.current_guess, evaluation(lowercased(s.current_guess), lowercased(s.answer)));
            &&& redraw
            &&& t.guesses == s.guesses.push(row)
            &&& t.current_guess == Seq::<char>::empty()
            &&& t.answer == s.answer
            &&& (t.status == GameStatus::Won <==> all_correct(row.1))
            &&& (t.status == GameStatus::Lost <==> (!all_correct(row.1) && s.guesses.len() + 1
                >= MAX_GUESSES))
            &&& (t.status == GameStatus::Playing <==> (!all_correct(row.1) && s.guesses.len() + 1
                < MAX_GUESSES))
        }),
{
}

/// A new game starts over with the drawn word: playing, no rows, nothing
/// typed, no letter known, no message and no statistics dialog, and it is
/// not a shared game; the statistics and the difficulty are kept, and the
/// page is asked to drop the link's query.
pub proof fn law_new_game_starts_over(s: AppView, origin: Seq<char>, pathname: Seq<char>, fresh: Seq<char>)
    ensures
        ({
            let (t, redraw, effects) = step(s, Msg::NewGame, origin, pathname, fresh);
            &&& redraw
            &&& t.answer == fresh
            &&& t.status == GameStatus::Playing
            &&& t.guesses.len() == 0
            &&& t.current_guess.len() == 0
            &&& t.letter_states.dom().is_empty()
            &&& t.message is None
            &&& !t.show_stats
            &&& !t.is_shared_game
            &&& t.stats == s.stats
            &&& t.difficulty == s.difficulty
            &&& effects == seq![EffectView::ClearUrlQuery]
        }),
{
}

/// Before the first guess the difficulty button switches between easy and
/// hard: one press changes the difficulty and asks for it to be stored, and
/// a second press brings it back.
pub proof fn law_toggle_difficulty_flips(s: AppView, origin: Seq<char>, pathname: Seq<char>, fresh: Seq<char>)
    requires
        s.guesses.len() == 0,
    ensures
        step(s, Msg::ToggleDifficulty, origin, pathname, fresh).0.difficulty != s.difficulty,
        step(s, Msg::ToggleDifficulty, origin, pathname, fresh).2 == seq![EffectView::SaveDifficulty],
        step(
            step(s, Msg::ToggleDifficulty, origin, pathname, fresh).0,
            Msg::ToggleDifficulty,
            origin,
            pathname,
            fresh,
        ).0 == s,
{
}

} // verus!
