use vstd::prelude::*;
use vstd::utf8::is_ascii_chars;

verus! {

/// `c` is one of the 26 lower-case ASCII letters.
pub open spec fn is_lower_letter(c: char) -> bool {
    'a' <= c <= 'z'
}

/// `c` is an ASCII letter of either case.
pub open spec fn is_letter(c: char) -> bool {
    ('a' <= c <= 'z') || ('A' <= c <= 'Z')
}

/// ASCII lower-casing of one character; every other character is kept.
pub open spec fn ascii_lower(c: char) -> char {
    if 'A' <= c <= 'Z' {
        ((c as u32) + 32) as char
    } else {
        c
    }
}

/// ASCII upper-casing of one character; every other character is kept.
pub open spec fn ascii_upper(c: char) -> char {
    if 'a' <= c <= 'z' {
        ((c as u32) - 32) as char
    } else {
        c
    }
}

/// A word in the form the game keeps: lower-case ASCII letters only.
pub open spec fn is_lower_word(w: Seq<char>) -> bool {
    forall|i: int| 0 <= i < w.len() ==> is_lower_letter(#[trigger] w[i])
}

/// What `str::to_lowercase` returns for a string with these characters.
pub uninterp spec fn lowercase_of(s: Seq<char>) -> Seq<char>;

/// A string lower-cased as `str::to_lowercase` does it: on an all-ASCII
/// string that is ASCII lower-casing; otherwise it is whatever that function
/// returns.
pub open spec fn lowercased(s: Seq<char>) -> Seq<char> {
    if is_ascii_chars(s) {
        s.map_values(|c: char| ascii_lower(c))
    } else {
        lowercase_of(s)
    }
}

/// What `str::to_uppercase` returns for a string with these characters.
pub uninterp spec fn uppercase_str_of(s: Seq<char>) -> Seq<char>;

/// A string upper-cased as `str::to_uppercase` does it: on an all-ASCII
/// string that is ASCII upper-casing; otherwise it is whatever that function
/// returns.
pub open spec fn uppercased(s: Seq<char>) -> Seq<char> {
    if is_ascii_chars(s) {
        s.map_values(|c: char| ascii_upper(c))
    } else {
        uppercase_str_of(s)
    }
}

/// Calls `str::to_uppercase`. Its result is named `uppercase_str_of`;
/// besides, on an all-ASCII string Unicode gives the ASCII upper-casing.
/// What it does with other characters is left to the name.
#[verifier::external_body]
pub(crate) fn to_uppercase(s: &str) -> (r: String)
    ensures
        r@ == uppercase_str_of(s@),
        is_ascii_chars(s@) ==> r@ == s@.map_values(|c: char| ascii_upper(c)),
{
    s.to_uppercase()
}

/// What `char::to_uppercase` yields for a character.
pub uninterp spec fn uppercase_of(c: char) -> Seq<char>;

/// Calls `str::to_lowercase`. Its result is named `lowercase_of`; besides,
/// Unicode maps ASCII `A`-`Z` to `a`-`z` and keeps every other ASCII
/// character, so on an all-ASCII string the result is the ASCII lower-casing;
/// and a lower-case mapping never yields an upper-case ASCII letter. What it
/// does with other characters is left to the name.
#[verifier::external_body]
pub(crate) fn to_lowercase(s: &str) -> (r: String)
    ensures
        r@ == lowercase_of(s@),
        is_ascii_chars(s@) ==> r@ == s@.map_values(|c: char| ascii_lower(c)),
        forall|i: int| 0 <= i < r@.len() ==> !('A' <= #[trigger] r@[i] <= 'Z'),
{
    s.to_lowercase()
}

/// Calls `char::to_uppercase` and collects what it yields. Its result is
/// named `uppercase_of`; besides, on an ASCII character Unicode gives the
/// single ASCII upper-case character. What it does with other characters is
/// left to the name.
#[verifier::external_body]
pub(crate) fn char_to_uppercase(c: char) -> (r: String)
    ensures
        r@ == uppercase_of(c),
        (c as u32) < 128 ==> r@ == seq![ascii_upper(c)],
{
    c.to_uppercase().to_string()
}

/// Calls `String::push`, which appends one character.
#[verifier::external_body]
pub(crate) fn push_char(s: &mut String, c: char)
    ensures
        final(s)@ == old(s)@.push(c),
{
    s.push(c)
}

/// Calls `String::pop`, which removes and returns the last character.
#[verifier::external_body]
pub(crate) fn pop_char(s: &mut String) -> (r: Option<char>)
    ensures
        old(s)@.len() == 0 ==> r is None && final(s)@ == old(s)@,
        old(s)@.len() > 0 ==> r == Some(old(s)@.last()) && final(s)@ == old(s)@.drop_last(),
{
    s.pop()
}

/// The characters of a string, in order.
pub fn chars_of(s: &str) -> (r: Vec<char>)
    ensures
        r@ == s@,
{
    let mut r: Vec<char> = Vec::new();
    for c in it: s.chars()
        invariant
            r@ == it.seq().take(it.index() as int),
    {
        r.push(c);
    }
    r
}

/// Whether `c` is an ASCII letter (what `char::is_ascii_alphabetic` tests).
pub fn is_ascii_alphabetic(c: char) -> (r: bool)
    ensures
        r == is_letter(c),
{
    ('a' <= c && c <= 'z') || ('A' <= c && c <= 'Z')
}

/// Whether `needle` occurs in `hay` as a run of consecutive characters.
pub open spec fn contains_run(hay: Seq<char>, needle: Seq<char>) -> bool {
    exists|i: int| 0 <= i && i + needle.len() <= hay.len() && #[trigger] hay.subrange(i, i + needle.len()) == needle
}

/// Whether `needle` occurs in `hay`.
pub fn find_run(hay: &[char], needle: &[char]) -> (r: bool)
    ensures
        r == contains_run(hay@, needle@),
{
    if needle.len() > hay.len() {
        return false;
    }
    let n = needle.len();
    let mut i: usize = 0;
    while i <= hay.len() - n
        invariant
            n == needle@.len(),
            n <= hay.len(),
            i <= hay.len() - n + 1,
            forall|k: int| 0 <= k < i ==> #[trigger] hay@.subrange(k, k + n) != needle@,
        decreases hay.len() - i,
    {
        let mut j: usize = 0;
        let mut same = true;
        while j < n
            invariant
                n == needle@.len(),
                i + n <= hay.len(),
                j <= n,
                same == forall|m: int| 0 <= m < j ==> hay@[i + m] == needle@[m],
            decreases n - j,
        {
            if hay[i + j] != needle[j] {
                same = false;
            }
            j += 1;
        }
        if same {
            assert(hay@.subrange(i as int, i + n) =~= needle@);
            return true;
        }
        assert(hay@.subrange(i as int, i + n) != needle@) by {
            let m = choose|m: int| 0 <= m < n && hay@[i + m] != needle@[m];
            assert(hay@.subrange(i as int, i + n)[m] == hay@[i + m]);
        }
        i += 1;
    }
    assert forall|k: int| 0 <= k && k + n <= hay@.len() implies #[trigger] hay@.subrange(k, k + n) != needle@ by {
        assert(k < i);
    }
    false
}

/// Whether the string `hay` contains the string `needle`.
pub fn str_contains(hay: &str, needle: &str) -> (r: bool)
    ensures
        r == contains_run(hay@, needle@),
{
    let h = chars_of(hay);
    let n = chars_of(needle);
    find_run(h.as_slice(), n.as_slice())
}

/// A string of ASCII letters is all-ASCII.
pub proof fn lemma_ascii_letters(s: Seq<char>)
    requires
        forall|i: int| 0 <= i < s.len() ==> is_letter(#[trigger] s[i]),
    ensures
        is_ascii_chars(s),
{
    assert forall|i: int| 0 <= i < s.len() implies '\0' <= #[trigger] s[i] <= '\u{7f}' by {
        assert(is_letter(s[i]));
    }
}

} // verus!
