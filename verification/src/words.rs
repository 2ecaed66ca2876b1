use vstd::prelude::*;
use vstd::string::StringExecFns;
use rand::seq::SliceRandom;

verus! {

/// The list of words that may be guessed, and from which answers are drawn.
pub struct WordList {
    words: Vec<String>,
}

/// Calls `rand::thread_rng` and `SliceRandom::choose`: `None` exactly for an
/// empty list, otherwise one of its entries, picked at random. Which entry
/// comes back is left open.
#[verifier::external_body]
fn choose_word(words: &[String]) -> (r: Option<&String>)
    ensures
        r is None <==> words@.len() == 0,
        r matches Some(w) ==> exists|i: int| 0 <= i < words@.len() && words@[i] == *w,
{
    let mut rng = rand::thread_rng();
    words.choose(&mut rng)
}

impl WordList {
    /// The words, as character sequences.
    pub closed spec fn view(&self) -> Seq<Seq<char>> {
        self.words@.map_values(|w: String| w@)
    }

    /// A word list holding the given words.
    pub fn new(words: Vec<String>) -> (r: Self)
        ensures
            r@ == words@.map_values(|w: String| w@),
    {
        WordList { words }
    }

    /// How many words the list holds.
    pub fn len(&self) -> (r: usize)
        ensures
            r == self@.len(),
    {
        self.words.len()
    }

    /// Whether `word` is on the list.
    pub fn is_valid_word(&self, word: &str) -> (r: bool)
        ensures
            r == self@.contains(word@),
    {
        let target = String::from_str(word);
        let mut i: usize = 0;
        while i < self.words.len()
            invariant
                i <= self.words.len(),
                target@ == word@,
                forall|k: int| 0 <= k < i ==> self@[k] != word@,
            decreases self.words.len() - i,
        {
            if self.words[i] == target {
                assert(self@[i as int] == word@);
                return true;
            }
            i += 1;
        }
        false
    }

    /// A word of the list picked at random; `crane` when the list is empty.
    pub fn random_word(&self) -> (r: String)
        ensures
            self@.len() == 0 ==> r@ == "crane"@,
            self@.len() > 0 ==> self@.contains(r@),
    {
        match choose_word(self.words.as_slice()) {
            Some(w) => {
                let r = w.clone();
                proof {
                    let i = choose|i: int| 0 <= i < self.words@.len() && self.words@[i] == *w;
                    assert(self@[i] == r@);
                }
                r
            },
            None => String::from_str("crane"),
        }
    }
}

} // verus!
