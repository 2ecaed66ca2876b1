use vstd::prelude::*;
use std::collections::HashMap;
use crate::game::TileState;

verus! {

/// The best-known state of each letter typed so far, as shown on the
/// on-screen keyboard, keyed by the letter's code point.
pub struct LetterStates {
    states: HashMap<u32, TileState>,
}

/// Whether a tile in `state` should replace what is known of its letter:
/// a letter known to be green stays green, a yellow one only turns green,
/// a grey one turns to anything but grey, and anything else is replaced.
pub open spec fn should_update(existing: Option<TileState>, state: TileState) -> bool {
    match existing {
        None => true,
        Some(TileState::Correct) => false,
        Some(TileState::Present) => state == TileState::Correct,
        Some(TileState::Absent) => state != TileState::Absent,
        _ => true,
    }
}

/// What is known of a letter.
pub open spec fn known(m: Map<char, TileState>, c: char) -> Option<TileState> {
    if m.dom().contains(c) {
        Some(m[c])
    } else {
        None
    }
}

/// The knowledge after seeing the letter `c` in a tile in `state`.
pub open spec fn apply_tile(m: Map<char, TileState>, c: char, state: TileState) -> Map<char, TileState> {
    if should_update(known(m, c), state) {
        m.insert(c, state)
    } else {
        m
    }
}

/// The letter at position `i` of a word, or a space past its end.
pub open spec fn char_at(word: Seq<char>, i: int) -> char {
    if 0 <= i < word.len() {
        word[i]
    } else {
        ' '
    }
}

/// The knowledge after the first `n` tiles of a row.
pub open spec fn apply_row(m: Map<char, TileState>, word: Seq<char>, states: Seq<TileState>, n: int) -> Map<char, TileState>
    decreases n,
{
    if n <= 0 {
        m
    } else {
        apply_tile(apply_row(m, word, states, n - 1), char_at(word, n - 1), states[n - 1])
    }
}

/// The knowledge after the first `k` rows, each read tile by tile.
pub open spec fn apply_rows(m: Map<char, TileState>, rows: Seq<(Seq<char>, Seq<TileState>)>, k: int) -> Map<char, TileState>
    decreases k,
{
    if k <= 0 {
        m
    } else {
        apply_row(apply_rows(m, rows, k - 1), rows[k - 1].0, rows[k - 1].1, rows[k - 1].1.len() as int)
    }
}

/// Different letters have different code points.
proof fn lemma_code_injective(c: char, d: char)
    ensures
        (c as u32 == d as u32) == (c == d),
{
    assert(c as int <= 0x10FFFF && d as int <= 0x10FFFF);
    assert(c as u32 == c as int);
    assert(d as u32 == d as int);
}

impl LetterStates {
    /// The state known for each letter.
    pub closed spec fn view(&self) -> Map<char, TileState> {
        Map::new(
            |c: char| self.states@.contains_key(c as u32),
            |c: char| self.states@[c as u32],
        )
    }

    /// No letter known yet.
    pub fn new() -> (r: Self)
        ensures
            r@ == Map::<char, TileState>::empty(),
    {
        let r = LetterStates { states: HashMap::new() };
        assert(r@ =~= Map::<char, TileState>::empty());
        r
    }

    /// The state known for a letter.
    pub fn get(&self, c: char) -> (r: Option<TileState>)
        ensures
            r == if self@.dom().contains(c) {
                Some(self@[c])
            } else {
                None
            },
    {
        broadcast use vstd::std_specs::hash::group_hash_axioms;

        match self.states.get(&(c as u32)) {
            Some(st) => Some(*st),
            None => None,
        }
    }

    /// Records `state` for the letter `c`.
    pub fn insert(&mut self, c: char, state: TileState)
        ensures
            final(self)@ == old(self)@.insert(c, state),
    {
        broadcast use vstd::std_specs::hash::group_hash_axioms;

        self.states.insert(c as u32, state);
        assert forall|d: char| #[trigger] self@.dom().contains(d) == old(self)@.insert(
            c,
            state,
        ).dom().contains(d) by {
            lemma_code_injective(d, c);
        }
        assert(self@ =~= old(self)@.insert(c, state)) by {
            assert forall|d: char| self@.dom().contains(d) implies #[trigger] self@[d] == old(
                self,
            )@.insert(c, state)[d] by {
                lemma_code_injective(d, c);
            }
        }
    }

    /// Forgets every letter.
    pub fn clear(&mut self)
        ensures
            final(self)@ == Map::<char, TileState>::empty(),
    {
        self.states.clear();
        assert(self@ =~= Map::<char, TileState>::empty());
    }
}

} // verus!
