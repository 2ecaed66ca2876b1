use vstd::prelude::*;
use vstd::string::StringExecFns;
use crate::game::{evaluation, law_present_and_absent, TileState, WORD_LENGTH};
use crate::text::{
    char_to_uppercase, chars_of, lowercased, push_char, to_lowercase, uppercase_of,
};

verus! {

/// A clue from an earlier row that a hard-mode guess fails to reuse.
#[derive(Clone, Copy, Debug, PartialEq, Eq, Structural)]
pub enum HardModeViolation {
    /// A green letter must stay at its position (`position` counts from 0).
    MissingGreen { letter: char, position: usize },
    /// A yellow letter must appear somewhere in the guess.
    MissingYellow { letter: char },
}

/// What hard mode says of a guess.
#[derive(Clone, Copy, Debug, PartialEq, Eq, Structural)]
pub enum HardModeVerdict {
    /// The guess reuses every revealed clue.
    Accepted,
    /// The first clue, in reading order, that the guess ignores.
    Rejected(HardModeViolation),
    /// A green or yellow tile that is checked lies past the end of its word.
    ClueOutOfRange,
}

/// Scans the green tiles of one earlier row from position `i` on.
pub open spec fn green_scan(guess: Seq<char>, word: Seq<char>, states: Seq<TileState>, i: int) -> HardModeVerdict
    decreases states.len() - i,
{
    if i < 0 || i >= states.len() {
        HardModeVerdict::Accepted
    } else if states[i] == TileState::Correct && i >= word.len() {
        HardModeVerdict::ClueOutOfRange
    } else if states[i] == TileState::Correct && (i >= guess.len() || guess[i] != word[i]) {
        HardModeVerdict::Rejected(HardModeViolation::MissingGreen { letter: word[i], position: i as usize })
    } else {
        green_scan(guess, word, states, i + 1)
    }
}

/// Scans the yellow tiles of one earlier row from position `i` on.
pub open spec fn yellow_scan(guess: Seq<char>, word: Seq<char>, states: Seq<TileState>, i: int) -> HardModeVerdict
    decreases states.len() - i,
{
    if i < 0 || i >= states.len() {
        HardModeVerdict::Accepted
    } else if states[i] == TileState::Present && i >= word.len() {
        HardModeVerdict::ClueOutOfRange
    } else if states[i] == TileState::Present && !guess.contains(word[i]) {
        HardModeVerdict::Rejected(HardModeViolation::MissingYellow { letter: word[i] })
    } else {
        yellow_scan(guess, word, states, i + 1)
    }
}

/// One earlier row: its greens first, then its yellows.
pub open spec fn row_verdict(guess: Seq<char>, word: Seq<char>, states: Seq<TileState>) -> HardModeVerdict {
    match green_scan(guess, word, states, 0) {
        HardModeVerdict::Accepted => yellow_scan(guess, word, states, 0),
        other => other,
    }
}

/// The earlier rows from the `k`-th on, in order; the first one that is not
/// accepted decides.
pub open spec fn rows_verdict(guess: Seq<char>, rows: Seq<(Seq<char>, Seq<TileState>)>, k: int) -> HardModeVerdict
    decreases rows.len() - k,
{
    if k < 0 || k >= rows.len() {
        HardModeVerdict::Accepted
    } else {
        match row_verdict(guess, rows[k].0, rows[k].1) {
            HardModeVerdict::Accepted => rows_verdict(guess, rows, k + 1),
            other => other,
        }
    }
}

/// Hard mode's verdict on a guess given the earlier rows.
pub open spec fn hard_mode_verdict_of(guess: Seq<char>, rows: Seq<(Seq<char>, Seq<TileState>)>) -> HardModeVerdict {
    rows_verdict(guess, rows, 0)
}

/// The earlier rows, as letters and tiles.
pub open spec fn rows_view(rows: Seq<(Vec<char>, Vec<TileState>)>) -> Seq<(Seq<char>, Seq<TileState>)> {
    rows.map_values(|r: (Vec<char>, Vec<TileState>)| (r.0@, r.1@))
}

/// The earlier rows as the game sees them: words lower-cased.
pub open spec fn lowered_rows(rows: Seq<(String, Vec<TileState>)>) -> Seq<(Seq<char>, Seq<TileState>)> {
    rows.map_values(|r: (String, Vec<TileState>)| (lowercased(r.0@), r.1@))
}

/// The decimal digits of a number.
pub open spec fn decimal(n: nat) -> Seq<char>
    decreases n,
{
    if n < 10 {
        seq![(n + 48) as char]
    } else {
        decimal(n / 10).push(((n % 10) + 48) as char)
    }
}

/// The message shown for a violation.
pub open spec fn violation_text(v: HardModeViolation) -> Seq<char> {
    match v {
        HardModeViolation::MissingGreen { letter, position } => "Letter "@ + uppercase_of(letter)
            + " must be in position "@ + decimal((position + 1) as nat),
        HardModeViolation::MissingYellow { letter } => "Guess must contain letter "@
            + uppercase_of(letter),
    }
}

/// Whether `c` occurs in `s`.
pub fn contains_char(s: &[char], c: char) -> (r: bool)
    ensures
        r == s@.contains(c),
{
    let mut i: usize = 0;
    while i < s.len()
        invariant
            i <= s.len(),
            forall|k: int| 0 <= k < i ==> s@[k] != c,
        decreases s.len() - i,
    {
        if s[i] == c {
            assert(s@[i as int] == c);
            return true;
        }
        i += 1;
    }
    false
}

fn green_scan_exec(guess: &[char], word: &[char], states: &[TileState]) -> (r: HardModeVerdict)
    ensures
        r == green_scan(guess@, word@, states@, 0),
{
    let mut i: usize = 0;
    while i < states.len()
        invariant
            i <= states.len(),
            green_scan(guess@, word@, states@, 0) == green_scan(guess@, word@, states@, i as int),
        decreases states.len() - i,
    {
        if states[i] == TileState::Correct {
            if i >= word.len() {
                return HardModeVerdict::ClueOutOfRange;
            }
            if i >= guess.len() || guess[i] != word[i] {
                return HardModeVerdict::Rejected(
                    HardModeViolation::MissingGreen { letter: word[i], position: i },
                );
            }
        }
        i += 1;
    }
    HardModeVerdict::Accepted
}

fn yellow_scan_exec(guess: &[char], word: &[char], states: &[TileState]) -> (r: HardModeVerdict)
    ensures
        r == yellow_scan(guess@, word@, states@, 0),
{
    let mut i: usize = 0;
    while i < states.len()
        invariant
            i <= states.len(),
            yellow_scan(guess@, word@, states@, 0) == yellow_scan(guess@, word@, states@, i as int),
        decreases states.len() - i,
    {
        if states[i] == TileState::Present {
            if i >= word.len() {
                return HardModeVerdict::ClueOutOfRange;
            }
            let ch = word[i];
            if !contains_char(guess, ch) {
                return HardModeVerdict::Rejected(HardModeViolation::MissingYellow { letter: ch });
            }
        }
        i += 1;
    }
    HardModeVerdict::Accepted
}

/// Hard mode's verdict on a guess, given the earlier rows as letters and
/// tiles: for each earlier row in order, every green letter must be at its
/// position in the guess, then every yellow letter must occur in the guess.
pub fn hard_mode_verdict(guess: &[char], previous: &[(Vec<char>, Vec<TileState>)]) -> (r: HardModeVerdict)
    ensures
        r == hard_mode_verdict_of(guess@, rows_view(previous@)),
{
    let ghost rows = rows_view(previous@);
    let mut k: usize = 0;
    while k < previous.len()
        invariant
            k <= previous.len(),
            rows == rows_view(previous@),
            rows.len() == previous@.len(),
            hard_mode_verdict_of(guess@, rows) == rows_verdict(guess@, rows, k as int),
        decreases previous.len() - k,
    {
        let row = &previous[k];
        assert(rows[k as int] == (row.0@, row.1@));
        let v = green_scan_exec(guess, row.0.as_slice(), row.1.as_slice());
        if v != HardModeVerdict::Accepted {
            return v;
        }
        let v = yellow_scan_exec(guess, row.0.as_slice(), row.1.as_slice());
        if v != HardModeVerdict::Accepted {
            return v;
        }
        k += 1;
    }
    HardModeVerdict::Accepted
}

/// The decimal digits of `n`.
pub fn decimal_digits(n: usize) -> (r: Vec<char>)
    ensures
        r@ == decimal(n as nat),
    decreases n,
{
    if n < 10 {
        let d = ((n as u8) + 48u8) as char;
        let mut r = Vec::new();
        r.push(d);
        r
    } else {
        let mut r = decimal_digits(n / 10);
        let d = (((n % 10) as u8) + 48u8) as char;
        r.push(d);
        r
    }
}

/// The message shown to the player for a violation.
pub fn violation_message(v: HardModeViolation) -> (r: String)
    requires
        v matches HardModeViolation::MissingGreen { position, .. } ==> position < usize::MAX,
    ensures
        r@ == violation_text(v),
{
    match v {
        HardModeViolation::MissingGreen { letter, position } => {
            let mut r = String::new();
            r.append("Letter ");
            r.append(char_to_uppercase(letter).as_str());
            r.append(" must be in position ");
            let digits = decimal_digits(position + 1);
            let mut i: usize = 0;
            let ghost base = r@;
            while i < digits.len()
                invariant
                    i <= digits.len(),
                    r@ == base + digits@.take(i as int),
                decreases digits.len() - i,
            {
                push_char(&mut r, digits[i]);
                i += 1;
                assert(r@ =~= base + digits@.take(i as int));
            }
            assert(digits@.take(digits.len() as int) =~= digits@);
            r
        },
        HardModeViolation::MissingYellow { letter } => {
            let mut r = String::new();
            r.append("Guess must contain letter ");
            r.append(char_to_uppercase(letter).as_str());
            r
        },
    }
}

/// The earlier rows with their words lower-cased, as letters and tiles.
fn lower_rows(previous: &[(String, Vec<TileState>)]) -> (r: Vec<(Vec<char>, Vec<TileState>)>)
    ensures
        rows_view(r@) == lowered_rows(previous@),
{
    let mut r: Vec<(Vec<char>, Vec<TileState>)> = Vec::new();
    let mut k: usize = 0;
    while k < previous.len()
        invariant
            k <= previous.len(),
            rows_view(r@) == lowered_rows(previous@).take(k as int),
        decreases previous.len() - k,
    {
        let word = chars_of(to_lowercase(previous[k].0.as_str()).as_str());
        let src = &previous[k].1;
        let mut states: Vec<TileState> = Vec::new();
        let mut i: usize = 0;
        while i < src.len()
            invariant
                i <= src.len(),
                states@ == src@.take(i as int),
            decreases src.len() - i,
        {
            states.push(src[i]);
            i += 1;
            assert(states@ =~= src@.take(i as int));
        }
        assert(states@ =~= src@);
        let ghost old_r = r@;
        r.push((word, states));
        assert(r@ == old_r.push((word, states)));
        assert(rows_view(r@) =~= rows_view(old_r).push((word@, states@)));
        k += 1;
        assert(rows_view(r@) =~= lowered_rows(previous@).take(k as int));
    }
    assert(lowered_rows(previous@).take(previous.len() as int) =~= lowered_rows(previous@));
    r
}

/// Checks a guess against hard mode: every green letter of an earlier row
/// must be reused at its position, and every yellow letter must appear in
/// the guess (words compared lower-cased). Returns the message for the
/// first clue that is ignored, or `None` when the guess is acceptable.
pub fn validate_hard_mode(guess: &str, previous_guesses: &[(String, Vec<TileState>)]) -> (r: Option<String>)
    requires
        hard_mode_verdict_of(lowercased(guess@), lowered_rows(previous_guesses@))
            != HardModeVerdict::ClueOutOfRange,
    ensures
        match hard_mode_verdict_of(lowercased(guess@), lowered_rows(previous_guesses@)) {
            HardModeVerdict::Rejected(v) => r is Some && r->0@ == violation_text(v),
            _ => r is None,
        },
{
    let guess_chars = chars_of(to_lowercase(guess).as_str());
    let rows = lower_rows(previous_guesses);
    match hard_mode_verdict(guess_chars.as_slice(), rows.as_slice()) {
        HardModeVerdict::Rejected(v) => {
            proof {
                assert forall|j: int| 0 <= j < rows_view(rows@).len() implies #[trigger] rows_view(
                    rows@,
                )[j].1.len() <= usize::MAX by {
                    assert(rows_view(rows@)[j].1 == rows@[j].1@);
                    assert(rows@[j].1.len() <= usize::MAX);
                }
                lemma_violation_position_bounded(guess_chars@, rows_view(rows@), 0);
            }
            Some(violation_message(v))
        },
        _ => None,
    }
}

/// Like `validate_hard_mode`, for any input: `None` when a green or yellow
/// tile that the check reaches lies past the end of its word (where the check
/// itself cannot proceed), otherwise `Some` of what `validate_hard_mode`
/// returns.
pub fn try_validate_hard_mode(guess: &str, previous_guesses: &[(String, Vec<TileState>)]) -> (r: Option<Option<String>>)
    ensures
        r is None <==> hard_mode_verdict_of(lowercased(guess@), lowered_rows(previous_guesses@))
            == HardModeVerdict::ClueOutOfRange,
        r matches Some(m) ==> match hard_mode_verdict_of(
            lowercased(guess@),
            lowered_rows(previous_guesses@),
        ) {
            HardModeVerdict::Rejected(v) => m is Some && m->0@ == violation_text(v),
            _ => m is None,
        },
{
    let guess_chars = chars_of(to_lowercase(guess).as_str());
    let rows = lower_rows(previous_guesses);
    if hard_mode_verdict(guess_chars.as_slice(), rows.as_slice()) == HardModeVerdict::ClueOutOfRange {
        None
    } else {
        Some(validate_hard_mode(guess, previous_guesses))
    }
}

proof fn lemma_green_position_bounded(guess: Seq<char>, word: Seq<char>, states: Seq<TileState>, i: int)
    requires
        0 <= i,
        states.len() <= usize::MAX,
    ensures
        green_scan(guess, word, states, i) matches HardModeVerdict::Rejected(
            HardModeViolation::MissingGreen { position, .. },
        ) ==> position < states.len(),
        green_scan(guess, word, states, i) matches HardModeVerdict::Rejected(v) ==> v is MissingGreen,
    decreases states.len() - i,
{
    if i < states.len() {
        lemma_green_position_bounded(guess, word, states, i + 1);
    }
}

proof fn lemma_yellow_kind(guess: Seq<char>, word: Seq<char>, states: Seq<TileState>, i: int)
    ensures
        yellow_scan(guess, word, states, i) matches HardModeVerdict::Rejected(v) ==> v is MissingYellow,
    decreases states.len() - i,
{
    if 0 <= i < states.len() {
        lemma_yellow_kind(guess, word, states, i + 1);
    }
}

proof fn lemma_violation_position_bounded(guess: Seq<char>, rows: Seq<(Seq<char>, Seq<TileState>)>, k: int)
    requires
        0 <= k,
        forall|j: int| 0 <= j < rows.len() ==> #[trigger] rows[j].1.len() <= usize::MAX,
    ensures
        rows_verdict(guess, rows, k) matches HardModeVerdict::Rejected(
            HardModeViolation::MissingGreen { position, .. },
        ) ==> position < usize::MAX,
    decreases rows.len() - k,
{
    if k < rows.len() {
        lemma_green_position_bounded(guess, rows[k].0, rows[k].1, 0);
        lemma_yellow_kind(guess, rows[k].0, rows[k].1, 0);
        lemma_violation_position_bounded(guess, rows, k + 1);
    }
}

/// Every green tile of the row is matched at its position in the guess, and
/// every yellow tile's letter occurs in the guess.
pub open spec fn row_respected(guess: Seq<char>, word: Seq<char>, states: Seq<TileState>) -> bool {
    forall|i: int|
        0 <= i < states.len() ==> {
            &&& #[trigger] states[i] == TileState::Correct ==> i < word.len() && i < guess.len()
                && guess[i] == word[i]
            &&& states[i] == TileState::Present ==> i < word.len() && guess.contains(word[i])
        }
}

/// Every earlier row's clues are reused by the guess.
pub open spec fn clues_respected(guess: Seq<char>, rows: Seq<(Seq<char>, Seq<TileState>)>) -> bool {
    forall|k: int| 0 <= k < rows.len() ==> row_respected(guess, #[trigger] rows[k].0, rows[k].1)
}

proof fn lemma_scans(guess: Seq<char>, word: Seq<char>, states: Seq<TileState>, i: int)
    requires
        0 <= i,
    ensures
        (green_scan(guess, word, states, i) == HardModeVerdict::Accepted) <==> (forall|j: int|
            i <= j < states.len() ==> (#[trigger] states[j] == TileState::Correct ==> j
                < word.len() && j < guess.len() && guess[j] == word[j])),
        (yellow_scan(guess, word, states, i) == HardModeVerdict::Accepted) <==> (forall|j: int|
            i <= j < states.len() ==> (#[trigger] states[j] == TileState::Present ==> j
                < word.len() && guess.contains(word[j]))),
    decreases states.len() - i,
{
    if i < states.len() {
        lemma_scans(guess, word, states, i + 1);
    }
}

proof fn lemma_rows(guess: Seq<char>, rows: Seq<(Seq<char>, Seq<TileState>)>, k: int)
    requires
        0 <= k,
    ensures
        (rows_verdict(guess, rows, k) == HardModeVerdict::Accepted) <==> (forall|j: int|
            k <= j < rows.len() ==> row_respected(guess, #[trigger] rows[j].0, rows[j].1)),
    decreases rows.len() - k,
{
    if k < rows.len() {
        lemma_rows(guess, rows, k + 1);
        lemma_scans(guess, rows[k].0, rows[k].1, 0);
        assert(row_respected(guess, rows[k].0, rows[k].1) <==> (green_scan(guess, rows[k].0, rows[k].1, 0)
            == HardModeVerdict::Accepted && yellow_scan(guess, rows[k].0, rows[k].1, 0)
            == HardModeVerdict::Accepted));
    }
}

/// Hard mode accepts a guess exactly when it reuses every revealed clue:
/// each green letter at its position, each yellow letter somewhere.
pub proof fn law_hard_mode_accepts_iff_clues_respected(guess: Seq<char>, rows: Seq<(Seq<char>, Seq<TileState>)>)
    ensures
        (hard_mode_verdict_of(guess, rows) == HardModeVerdict::Accepted) <==> clues_respected(guess, rows),
{
    lemma_rows(guess, rows, 0);
}

/// The answer itself is always an acceptable hard-mode guess: whatever rows
/// were scored against it, it reuses all of their clues.
pub proof fn law_answer_passes_hard_mode(answer: Seq<char>, rows: Seq<(Seq<char>, Seq<TileState>)>)
    requires
        forall|k: int| 0 <= k < rows.len() ==> #[trigger] rows[k].1 == evaluation(rows[k].0, answer),
    ensures
        hard_mode_verdict_of(answer, rows) == HardModeVerdict::Accepted,
{
    assert forall|k: int| 0 <= k < rows.len() implies row_respected(answer, #[trigger] rows[k].0, rows[k].1) by {
        let word = rows[k].0;
        let states = rows[k].1;
        assert forall|i: int| 0 <= i < states.len() implies {
            &&& #[trigger] states[i] == TileState::Correct ==> i < word.len() && i < answer.len()
                && answer[i] == word[i]
            &&& states[i] == TileState::Present ==> i < word.len() && answer.contains(word[i])
        } by {
            if states[i] == TileState::Present {
                law_present_and_absent(word, answer, i);
                let j = choose|j: int|
                    0 <= j < WORD_LENGTH && j < answer.len() && !crate::game::is_hit(word, answer, j)
                        && answer[j] == word[i] && j != i;
                assert(answer[j] == word[i]);
            }
        }
    }
    law_hard_mode_accepts_iff_clues_respected(answer, rows);
}

proof fn lemma_scans_in_range(guess: Seq<char>, word: Seq<char>, states: Seq<TileState>, i: int)
    requires
        0 <= i,
        states.len() <= word.len(),
    ensures
        green_scan(guess, word, states, i) != HardModeVerdict::ClueOutOfRange,
        yellow_scan(guess, word, states, i) != HardModeVerdict::ClueOutOfRange,
    decreases states.len() - i,
{
    if i < states.len() {
        lemma_scans_in_range(guess, word, states, i + 1);
    }
}

/// When no row has more tiles than letters, every tile the check reaches is
/// in range.
pub proof fn lemma_rows_in_range(guess: Seq<char>, rows: Seq<(Seq<char>, Seq<TileState>)>, k: int)
    requires
        0 <= k,
        forall|j: int| 0 <= j < rows.len() ==> (#[trigger] rows[j]).1.len() <= rows[j].0.len(),
    ensures
        rows_verdict(guess, rows, k) != HardModeVerdict::ClueOutOfRange,
    decreases rows.len() - k,
{
    if k < rows.len() {
        lemma_scans_in_range(guess, rows[k].0, rows[k].1, 0);
        lemma_rows_in_range(guess, rows, k + 1);
    }
}

} // verus!
