use vstd::prelude::*;
use vstd::string::StringExecFns;
use vstd::utf8::encode_utf8;
use crate::game::{TileState, WORD_LENGTH};
use crate::share::{base64_url_encoding, encode_word};
use crate::text::{
    ascii_lower, chars_of, contains_run, is_ascii_alphabetic, is_letter, lowercased, push_char,
    str_contains, to_lowercase,
};

verus! {

/// The link that starts a game with `word`: the page's address followed by
/// `?w=` and the word's encoding.
pub open spec fn url_for_word(origin: Seq<char>, pathname: Seq<char>, word: Seq<char>) -> Seq<char> {
    origin + pathname + "?w="@ + base64_url_encoding(encode_utf8(word))
}

/// Builds the link that starts a game with `word`, for a page at `origin`
/// and `pathname`.
pub fn build_url_for_word(origin: &str, pathname: &str, word: &str) -> (r: String)
    ensures
        r@ == url_for_word(origin@, pathname@, word@),
{
    let mut r = String::new();
    r.append(origin);
    r.append(pathname);
    r.append("?w=");
    let encoded = encode_word(word);
    r.append(encoded.as_str());
    r
}

/// Install instructions for a phone or tablet, chosen by the browser's user
/// agent (compared lower-cased); `None` on other devices.
pub open spec fn install_instructions_for(user_agent: Seq<char>) -> Option<(Seq<char>, Seq<char>)> {
    let ua = lowercased(user_agent);
    if contains_run(ua, "iphone"@) || contains_run(ua, "ipad"@) || contains_run(ua, "ipod"@) {
        Some(("📤"@, "Tap the Share button then select \"Add to Home Screen\""@))
    } else if contains_run(ua, "android"@) {
        Some(("⋮"@, "Tap the browser menu then select \"Add to Home Screen\""@))
    } else {
        None
    }
}

/// The icon and text of the install banner for a device with this user
/// agent, or `None` for a desktop browser.
pub fn install_instructions(user_agent: &str) -> (r: Option<(&'static str, &'static str)>)
    ensures
        match install_instructions_for(user_agent@) {
            Some((icon, text)) => r matches Some((i, t)) && i@ == icon && t@ == text,
            None => r is None,
        },
{
    let lower = to_lowercase(user_agent);
    let ua = lower.as_str();
    if str_contains(ua, "iphone") || str_contains(ua, "ipad") || str_contains(ua, "ipod") {
        return Some(("📤", "Tap the Share button then select \"Add to Home Screen\""));
    }
    if str_contains(ua, "android") {
        return Some(("⋮", "Tap the browser menu then select \"Add to Home Screen\""));
    }
    None
}

/// The letters of `raw` that are ASCII letters, in order.
pub open spec fn letters_only(raw: Seq<char>) -> Seq<char>
    decreases raw.len(),
{
    if raw.len() == 0 {
        seq![]
    } else if is_letter(raw.last()) {
        letters_only(raw.drop_last()).push(raw.last())
    } else {
        letters_only(raw.drop_last())
    }
}

/// What the challenge-link box keeps of typed text: its first five ASCII
/// letters, lower-cased.
pub open spec fn link_input_word(raw: Seq<char>) -> Seq<char> {
    let l = letters_only(raw);
    let kept = if l.len() <= WORD_LENGTH { l } else { l.take(WORD_LENGTH as int) };
    kept.map_values(|c: char| ascii_lower(c))
}

/// Keeps the first five ASCII letters of what was typed into the
/// challenge-link box, lower-cased.
pub fn filter_link_input(raw: &str) -> (r: String)
    ensures
        r@ == link_input_word(raw@),
{
    let cs = chars_of(raw);
    let mut kept = String::new();
    let mut count: usize = 0;
    let mut i: usize = 0;
    while i < cs.len()
        invariant
            i <= cs.len(),
            count <= WORD_LENGTH,
            kept@ == (if letters_only(cs@.take(i as int)).len() <= WORD_LENGTH {
                letters_only(cs@.take(i as int))
            } else {
                letters_only(cs@.take(i as int)).take(WORD_LENGTH as int)
            }),
            count == kept@.len(),
        decreases cs.len() - i,
    {
        let c = cs[i];
        proof {
            assert(cs@.take(i + 1).drop_last() =~= cs@.take(i as int));
            assert(cs@.take(i + 1).last() == c);
            lemma_letters_only_prefix(cs@.take(i as int), c);
        }
        if is_ascii_alphabetic(c) && count < WORD_LENGTH {
            push_char(&mut kept, c);
            count += 1;
        }
        i += 1;
    }
    assert(cs@.take(cs.len() as int) =~= cs@);
    proof {
        lemma_letters_only_letters(cs@);
        crate::text::lemma_ascii_letters(kept@);
    }
    to_lowercase(kept.as_str())
}

proof fn lemma_letters_only_letters(s: Seq<char>)
    ensures
        forall|i: int| 0 <= i < letters_only(s).len() ==> is_letter(#[trigger] letters_only(s)[i]),
    decreases s.len(),
{
    if s.len() > 0 {
        lemma_letters_only_letters(s.drop_last());
        let prev = letters_only(s.drop_last());
        if is_letter(s.last()) {
            assert forall|i: int| 0 <= i < letters_only(s).len() implies is_letter(
                #[trigger] letters_only(s)[i],
            ) by {
                if i < prev.len() {
                    assert(letters_only(s)[i] == prev[i]);
                }
            }
        }
    }
}

/// What the challenge-link box keeps is at most five lower-case letters.
pub proof fn lemma_link_input_word_shape(raw: Seq<char>)
    ensures
        link_input_word(raw).len() <= WORD_LENGTH,
        crate::text::is_lower_word(link_input_word(raw)),
{
    lemma_letters_only_letters(raw);
    let l = letters_only(raw);
    let kept = if l.len() <= WORD_LENGTH { l } else { l.take(WORD_LENGTH as int) };
    assert forall|i: int| 0 <= i < kept.len() implies crate::text::is_lower_letter(
        #[trigger] link_input_word(raw)[i],
    ) by {
        assert(is_letter(kept[i]));
    }
}

proof fn lemma_letters_only_prefix(s: Seq<char>, c: char)
    ensures
        letters_only(s.push(c)) == if is_letter(c) {
            letters_only(s).push(c)
        } else {
            letters_only(s)
        },
        letters_only(s).len() <= letters_only(s.push(c)).len(),
        letters_only(s.push(c)).len() <= letters_only(s).len() + 1,
{
    assert(s.push(c).drop_last() =~= s);
}

/// The style class of a tile in a given state.
pub open spec fn tile_class(state: TileState) -> Seq<char> {
    match state {
        TileState::Correct => "correct"@,
        TileState::Present => "present"@,
        TileState::Absent => "absent"@,
        TileState::Filled => "filled"@,
        TileState::Empty => ""@,
    }
}

/// The style class of a tile in a given state.
pub fn letter_state_class(state: &TileState) -> (r: &'static str)
    ensures
        r@ == tile_class(*state),
        r@ == match *state {
            TileState::Correct => "correct"@,
            TileState::Present => "present"@,
            TileState::Absent => "absent"@,
            TileState::Filled => "filled"@,
            TileState::Empty => ""@,
        },
{
    match state {
        TileState::Correct => "correct",
        TileState::Present => "present",
        TileState::Absent => "absent",
        TileState::Filled => "filled",
        TileState::Empty => "",
    }
}

/// Tiles in different states are drawn differently: no two states share a
/// style class.
pub proof fn law_tile_classes_distinct(a: TileState, b: TileState)
    requires
        a != b,
    ensures
        tile_class(a) != tile_class(b),
{
    reveal_strlit("correct");
    reveal_strlit("present");
    reveal_strlit("absent");
    reveal_strlit("filled");
    reveal_strlit("");
    let (x, y) = (tile_class(a), tile_class(b));
    if x.len() == y.len() && x.len() > 0 {
        assert(x[0] != y[0]);
    }
}

} // verus!
