use vstd::prelude::*;
use crate::text::{chars_of, lowercased, to_lowercase};

verus! {

/// Number of letters in a word.
pub const WORD_LENGTH: usize = 5;

/// Number of guesses a player has.
pub const MAX_GUESSES: usize = 6;

/// The colour of one tile on the board.
#[derive(Clone, Copy, Debug, PartialEq, Eq, Structural)]
pub enum TileState {
    Empty,
    Filled,
    /// Right letter in the right position.
    Correct,
    /// Right letter in the wrong position.
    Present,
    /// Letter not in the word (or already accounted for).
    Absent,
}

/// Whether a game is still going on.
#[derive(Clone, Copy, Debug, PartialEq, Eq, Structural)]
pub enum GameStatus {
    Playing,
    Won,
    Lost,
}

/// Easy mode accepts any guess from the list; hard mode makes revealed
/// clues binding.
#[derive(Clone, Copy, Debug, PartialEq, Eq, Structural)]
pub enum Difficulty {
    Easy,
    Hard,
}


/// Position `i` is a hit: it is one of the scored positions, both words
/// have a letter there, and the two letters agree.
pub open spec fn is_hit(guess: Seq<char>, answer: Seq<char>, i: int) -> bool {
    &&& 0 <= i < WORD_LENGTH
    &&& i < guess.len()
    &&& i < answer.len()
    &&& guess[i] == answer[i]
}

/// How many of the guess positions before `upto` hold the letter `c`
/// without being a hit.
pub open spec fn unmatched_in_guess(guess: Seq<char>, answer: Seq<char>, c: char, upto: int) -> nat
    decreases upto,
{
    if upto <= 0 {
        0
    } else {
        unmatched_in_guess(guess, answer, c, upto - 1) + if upto - 1 < guess.len() && !is_hit(
            guess,
            answer,
            upto - 1,
        ) && guess[upto - 1] == c {
            1nat
        } else {
            0nat
        }
    }
}

/// How many of the answer positions before `upto` hold the letter `c`
/// without being a hit.
pub open spec fn unmatched_in_answer(guess: Seq<char>, answer: Seq<char>, c: char, upto: int) -> nat
    decreases upto,
{
    if upto <= 0 {
        0
    } else {
        unmatched_in_answer(guess, answer, c, upto - 1) + if upto - 1 < answer.len() && !is_hit(
            guess,
            answer,
            upto - 1,
        ) && answer[upto - 1] == c {
            1nat
        } else {
            0nat
        }
    }
}

/// The tile of position `i`: a hit is `Correct`; otherwise a guessed letter
/// is `Present` when the answer still has an unmatched copy of it left over
/// after the earlier unmatched copies in the guess took theirs; anything
/// else is `Absent`.
pub open spec fn tile_of(guess: Seq<char>, answer: Seq<char>, i: int) -> TileState {
    if is_hit(guess, answer, i) {
        TileState::Correct
    } else if i < guess.len() && unmatched_in_guess(guess, answer, guess[i], i)
        < unmatched_in_answer(guess, answer, guess[i], WORD_LENGTH as int) {
        TileState::Present
    } else {
        TileState::Absent
    }
}

/// The row of tiles that a guess earns against an answer.
pub open spec fn evaluation(guess: Seq<char>, answer: Seq<char>) -> Seq<TileState> {
    Seq::new(WORD_LENGTH as nat, |i: int| tile_of(guess, answer, i))
}

/// The unmatched counts only grow with the bound.
pub proof fn lemma_unmatched_monotone(guess: Seq<char>, answer: Seq<char>, c: char, lo: int, hi: int)
    requires
        lo <= hi,
    ensures
        unmatched_in_guess(guess, answer, c, lo) <= unmatched_in_guess(guess, answer, c, hi),
        unmatched_in_answer(guess, answer, c, lo) <= unmatched_in_answer(guess, answer, c, hi),
    decreases hi - lo,
{
    if lo < hi {
        lemma_unmatched_monotone(guess, answer, c, lo, hi - 1);
    }
}

/// Past the end of the answer nothing more is counted.
proof fn lemma_unmatched_answer_stable(guess: Seq<char>, answer: Seq<char>, c: char, lo: int, hi: int)
    requires
        answer.len() <= lo <= hi,
    ensures
        unmatched_in_answer(guess, answer, c, lo) == unmatched_in_answer(guess, answer, c, hi),
    decreases hi - lo,
{
    if lo < hi {
        lemma_unmatched_answer_stable(guess, answer, c, lo, hi - 1);
    }
}

/// How many of the positions before `upto` of `w` hold the letter `c`.
pub open spec fn letter_count(w: Seq<char>, c: char, upto: int) -> nat
    decreases upto,
{
    if upto <= 0 {
        0
    } else {
        letter_count(w, c, upto - 1) + if upto - 1 < w.len() && w[upto - 1] == c {
            1nat
        } else {
            0nat
        }
    }
}

/// How many tiles before `upto` of a row for `guess` are green or yellow
/// on the letter `c`.
pub open spec fn marked_count(tiles: Seq<TileState>, guess: Seq<char>, c: char, upto: int) -> nat
    decreases upto,
{
    if upto <= 0 {
        0
    } else {
        marked_count(tiles, guess, c, upto - 1) + if upto - 1 < guess.len() && guess[upto - 1]
            == c && (tiles[upto - 1] == TileState::Correct || tiles[upto - 1]
            == TileState::Present) {
            1nat
        } else {
            0nat
        }
    }
}

/// How many hits before `upto` are on the letter `c`.
pub open spec fn hit_count(guess: Seq<char>, answer: Seq<char>, c: char, upto: int) -> nat
    decreases upto,
{
    if upto <= 0 {
        0
    } else {
        hit_count(guess, answer, c, upto - 1) + if is_hit(guess, answer, upto - 1) && guess[upto
            - 1] == c {
            1nat
        } else {
            0nat
        }
    }
}

/// The smaller of two counts.
pub open spec fn min_nat(x: nat, y: nat) -> nat {
    if x <= y {
        x
    } else {
        y
    }
}

/// A row is a win when every one of its five tiles is green.
pub open spec fn all_correct(tiles: Seq<TileState>) -> bool {
    tiles.len() == WORD_LENGTH && forall|i: int| 0 <= i < tiles.len() ==> #[trigger] tiles[i]
        == TileState::Correct
}

proof fn lemma_counts_split(guess: Seq<char>, answer: Seq<char>, c: char, upto: int)
    requires
        upto <= WORD_LENGTH,
    ensures
        letter_count(guess, c, upto) == hit_count(guess, answer, c, upto) + unmatched_in_guess(
            guess,
            answer,
            c,
            upto,
        ),
        letter_count(answer, c, upto) == hit_count(guess, answer, c, upto) + unmatched_in_answer(
            guess,
            answer,
            c,
            upto,
        ),
        marked_count(evaluation(guess, answer), guess, c, upto) == hit_count(
            guess,
            answer,
            c,
            upto,
        ) + min_nat(
            unmatched_in_guess(guess, answer, c, upto),
            unmatched_in_answer(guess, answer, c, WORD_LENGTH as int),
        ),
    decreases upto,
{
    if upto > 0 {
        lemma_counts_split(guess, answer, c, upto - 1);
        let k = upto - 1;
        if k < guess.len() && guess[k] == c && !is_hit(guess, answer, k) {
            assert(evaluation(guess, answer)[k] == tile_of(guess, answer, k));
        }
        if is_hit(guess, answer, k) {
            assert(evaluation(guess, answer)[k] == TileState::Correct);
        }
    }
}

/// For every letter, a row marks as many of its tiles green or yellow as
/// the fewer of its copies in the guess and in the answer (over the five
/// scored positions): no letter is over- or under-reported.
pub proof fn law_letter_accounting(guess: Seq<char>, answer: Seq<char>, c: char)
    ensures
        marked_count(evaluation(guess, answer), guess, c, WORD_LENGTH as int) == min_nat(
            letter_count(guess, c, WORD_LENGTH as int),
            letter_count(answer, c, WORD_LENGTH as int),
        ),
{
    lemma_counts_split(guess, answer, c, WORD_LENGTH as int);
}

/// A row is all green exactly when both words have at least five letters
/// and their first five agree.
pub proof fn law_win_iff_same_word(guess: Seq<char>, answer: Seq<char>)
    ensures
        all_correct(evaluation(guess, answer)) <==> (guess.len() >= WORD_LENGTH && answer.len()
            >= WORD_LENGTH && guess.take(WORD_LENGTH as int) == answer.take(WORD_LENGTH as int)),
{
    let e = evaluation(guess, answer);
    if all_correct(e) {
        assert(e[WORD_LENGTH - 1] == TileState::Correct);
        assert(is_hit(guess, answer, WORD_LENGTH - 1));
        assert forall|i: int| 0 <= i < WORD_LENGTH implies guess[i] == answer[i] by {
            assert(e[i] == TileState::Correct);
        }
        assert(guess.take(WORD_LENGTH as int) =~= answer.take(WORD_LENGTH as int));
    }
    if guess.len() >= WORD_LENGTH && answer.len() >= WORD_LENGTH && guess.take(
        WORD_LENGTH as int,
    ) == answer.take(WORD_LENGTH as int) {
        assert forall|i: int| 0 <= i < e.len() implies #[trigger] e[i] == TileState::Correct by {
            assert(guess.take(WORD_LENGTH as int)[i] == answer.take(WORD_LENGTH as int)[i]);
        }
    }
}

/// A yellow tile's letter is in the answer, away from the hits; a grey tile
/// on a guessed letter means every unmatched copy of it in the answer was
/// already claimed by an earlier yellow.
pub proof fn law_present_and_absent(guess: Seq<char>, answer: Seq<char>, i: int)
    requires
        0 <= i < WORD_LENGTH,
    ensures
        evaluation(guess, answer)[i] == TileState::Present ==> exists|j: int|
            0 <= j < WORD_LENGTH && j < answer.len() && !is_hit(guess, answer, j) && answer[j]
                == guess[i] && j != i,
        evaluation(guess, answer)[i] == TileState::Absent && i < guess.len() ==> unmatched_in_answer(
            guess,
            answer,
            guess[i],
            WORD_LENGTH as int,
        ) <= unmatched_in_guess(guess, answer, guess[i], i),
{
    let e = evaluation(guess, answer);
    if e[i] == TileState::Present {
        let c = guess[i];
        lemma_some_unmatched(guess, answer, c, WORD_LENGTH as int);
        let j = choose|j: int|
            0 <= j < WORD_LENGTH && j < answer.len() && !is_hit(guess, answer, j) && answer[j]
                == c;
        assert(j != i);
    }
}

proof fn lemma_some_unmatched(guess: Seq<char>, answer: Seq<char>, c: char, upto: int)
    requires
        upto <= WORD_LENGTH,
        unmatched_in_answer(guess, answer, c, upto) > 0,
    ensures
        exists|j: int|
            0 <= j < upto && j < answer.len() && !is_hit(guess, answer, j) && answer[j] == c,
    decreases upto,
{
    if upto > 0 {
        let k = upto - 1;
        if !(k < answer.len() && !is_hit(guess, answer, k) && answer[k] == c) {
            lemma_some_unmatched(guess, answer, c, upto - 1);
        }
    }
}

/// Scores `guess` against `answer`, letter by letter: first the hits, then,
/// from left to right, each other guessed letter takes the first unused
/// copy of itself in the answer.
pub fn evaluate_letters(guess: &[char], answer: &[char]) -> (result: Vec<TileState>)
    ensures
        result@ == evaluation(guess@, answer@),
{
    let ghost g = guess@;
    let ghost a = answer@;
    let mut result: Vec<TileState> = Vec::new();
    let mut answer_used: Vec<bool> = Vec::new();
    let mut i: usize = 0;
    // First pass: mark correct positions.
    while i < WORD_LENGTH
        invariant
            i <= WORD_LENGTH,
            g == guess@,
            a == answer@,
            result@.len() == i,
            answer_used@.len() == i,
            forall|k: int|
                0 <= k < i ==> #[trigger] result@[k] == (if is_hit(g, a, k) {
                    TileState::Correct
                } else {
                    TileState::Absent
                }),
            forall|k: int| 0 <= k < i ==> #[trigger] answer_used@[k] == is_hit(g, a, k),
        decreases WORD_LENGTH - i,
    {
        if i < guess.len() && i < answer.len() && guess[i] == answer[i] {
            result.push(TileState::Correct);
            answer_used.push(true);
        } else {
            result.push(TileState::Absent);
            answer_used.push(false);
        }
        i += 1;
    }
    // Second pass: mark present letters.
    i = 0;
    while i < WORD_LENGTH
        invariant
            i <= WORD_LENGTH,
            g == guess@,
            a == answer@,
            result@.len() == WORD_LENGTH,
            answer_used@.len() == WORD_LENGTH,
            forall|k: int|
                0 <= k < WORD_LENGTH ==> #[trigger] result@[k] == (if k < i {
                    tile_of(g, a, k)
                } else if is_hit(g, a, k) {
                    TileState::Correct
                } else {
                    TileState::Absent
                }),
            forall|j: int|
                0 <= j < WORD_LENGTH ==> #[trigger] answer_used@[j] == (is_hit(g, a, j) || (j
                    < a.len() && unmatched_in_answer(g, a, a[j], j) < unmatched_in_guess(
                    g,
                    a,
                    a[j],
                    i as int,
                ))),
        decreases WORD_LENGTH - i,
    {
        let ghost prev_used = answer_used@;
        if result[i] == TileState::Correct {
            assert(is_hit(g, a, i as int));
            assert forall|d: char| #[trigger]
                unmatched_in_guess(g, a, d, i + 1) == unmatched_in_guess(g, a, d, i as int) by {}
        } else if i >= guess.len() {
            assert forall|d: char| #[trigger]
                unmatched_in_guess(g, a, d, i + 1) == unmatched_in_guess(g, a, d, i as int) by {}
        } else {
            let c = guess[i];
            let ghost cnt = unmatched_in_guess(g, a, c, i as int);
            assert(!is_hit(g, a, i as int));
            let mut j: usize = 0;
            let mut found = false;
            while j < WORD_LENGTH && j < answer.len()
                invariant_except_break
                    !found,
                invariant
                    j <= WORD_LENGTH,
                    g == guess@,
                    a == answer@,
                    i < WORD_LENGTH,
                    i < g.len(),
                    c == g[i as int],
                    cnt == unmatched_in_guess(g, a, c, i as int),
                    result@.len() == WORD_LENGTH,
                    answer_used@.len() == WORD_LENGTH,
                    !found ==> answer_used@ == prev_used,
                    !found ==> result@[i as int] == TileState::Absent,
                    !found ==> unmatched_in_answer(g, a, c, j as int) <= cnt,
                    !found ==> forall|k: int| 0 <= k < j ==> !(!#[trigger] prev_used[k] && a[k] == c),
                    found ==> result@[i as int] == TileState::Present,
                    found ==> j < WORD_LENGTH && j < a.len() && !prev_used[j as int] && a[j as int] == c
                        && unmatched_in_answer(g, a, c, j as int) == cnt
                        && answer_used@ == prev_used.update(j as int, true),
                    forall|k: int| 0 <= k < WORD_LENGTH && k != i ==> #[trigger] result@[k] == (if k < i {
                        tile_of(g, a, k)
                    } else if is_hit(g, a, k) {
                        TileState::Correct
                    } else {
                        TileState::Absent
                    }),
                    forall|k: int|
                        0 <= k < WORD_LENGTH ==> #[trigger] prev_used[k] == (is_hit(g, a, k) || (k
                            < a.len() && unmatched_in_answer(g, a, a[k], k) < unmatched_in_guess(
                            g,
                            a,
                            a[k],
                            i as int,
                        ))),
                ensures
                    !found ==> !(j < WORD_LENGTH && j < a.len()),
                decreases WORD_LENGTH - j,
            {
                if !answer_used[j] && guess[i] == answer[j] {
                    assert(!is_hit(g, a, j as int));
                    assert(unmatched_in_answer(g, a, c, j as int) >= cnt);
                    result.set(i, TileState::Present);
                    answer_used.set(j, true);
                    found = true;
                    break;
                }
                j += 1;
            }
            proof {
                assert(unmatched_in_guess(g, a, c, i + 1) == cnt + 1);
                assert forall|d: char| d != c implies #[trigger]
                    unmatched_in_guess(g, a, d, i + 1) == unmatched_in_guess(g, a, d, i as int) by {}
                if found {
                    lemma_unmatched_monotone(g, a, c, j + 1, WORD_LENGTH as int);
                    assert(tile_of(g, a, i as int) == TileState::Present);
                    assert forall|k: int| 0 <= k < WORD_LENGTH implies #[trigger] answer_used@[k]
                        == (is_hit(g, a, k) || (k < a.len() && unmatched_in_answer(g, a, a[k], k)
                        < unmatched_in_guess(g, a, a[k], i + 1))) by {
                        if k != j && k < a.len() && a[k] == c && !is_hit(g, a, k) {
                            if k < j {
                                lemma_unmatched_monotone(g, a, c, k + 1, j as int);
                            } else {
                                lemma_unmatched_monotone(g, a, c, j + 1, k);
                            }
                        }
                    }
                } else {
                    if j < WORD_LENGTH {
                        lemma_unmatched_answer_stable(g, a, c, j as int, WORD_LENGTH as int);
                    }
                    assert(tile_of(g, a, i as int) == TileState::Absent);
                    assert forall|k: int| 0 <= k < WORD_LENGTH implies #[trigger] answer_used@[k]
                        == (is_hit(g, a, k) || (k < a.len() && unmatched_in_answer(g, a, a[k], k)
                        < unmatched_in_guess(g, a, a[k], i + 1))) by {
                        if k < a.len() && a[k] == c && !is_hit(g, a, k) {
                            assert(k < j);
                            assert(prev_used[k]);
                        }
                    }
                }
            }
        }
        i += 1;
    }
    assert(result@ =~= evaluation(g, a));
    result
}

/// Evaluates a guess against the answer, ignoring case: one tile for each of
/// the five positions.
pub fn evaluate_guess(guess: &str, answer: &str) -> (result: Vec<TileState>)
    ensures
        result@ == evaluation(lowercased(guess@), lowercased(answer@)),
{
    let guess = chars_of(to_lowercase(guess).as_str());
    let answer = chars_of(to_lowercase(answer).as_str());
    evaluate_letters(guess.as_slice(), answer.as_slice())
}

} // verus!
