use vstd::prelude::*;
use vstd::string::StringExecFns;
use vstd::utf8::{decode_utf8, encode_utf8, is_ascii_chars, valid_utf8};
use base64::Engine;
use base64::engine::general_purpose::URL_SAFE_NO_PAD;
use crate::game::WORD_LENGTH;
use crate::text::{
    ascii_lower, chars_of, is_ascii_alphabetic, is_letter, is_lower_word, lowercased, to_lowercase,
};

verus! {

/// The symbol for a six-bit value in the URL-safe base64 alphabet of
/// RFC 4648 (`A`-`Z`, `a`-`z`, `0`-`9`, `-`, `_`).
pub open spec fn url_safe_symbol(v: int) -> char {
    if v < 26 {
        (65 + v) as char
    } else if v < 52 {
        (97 + (v - 26)) as char
    } else if v < 62 {
        (48 + (v - 52)) as char
    } else if v == 62 {
        '-'
    } else {
        '_'
    }
}

/// URL-safe base64 without padding (RFC 4648, section 5): every three bytes
/// become four symbols; a final one or two bytes become two or three.
pub open spec fn base64_url_encoding(b: Seq<u8>) -> Seq<char>
    decreases b.len(),
{
    let x = b[0] as int;
    let y = b[1] as int;
    let z = b[2] as int;
    if b.len() == 0 {
        seq![]
    } else if b.len() == 1 {
        seq![url_safe_symbol(x / 4), url_safe_symbol((x % 4) * 16)]
    } else if b.len() == 2 {
        seq![
            url_safe_symbol(x / 4),
            url_safe_symbol((x % 4) * 16 + y / 16),
            url_safe_symbol((y % 16) * 4),
        ]
    } else {
        seq![
            url_safe_symbol(x / 4),
            url_safe_symbol((x % 4) * 16 + y / 16),
            url_safe_symbol((y % 16) * 4 + z / 64),
            url_safe_symbol(z % 64),
        ] + base64_url_encoding(b.skip(3))
    }
}

/// Calls `base64::Engine::encode` on `URL_SAFE_NO_PAD`: the result is the
/// URL-safe, unpadded base64 text of the bytes. The crate panics only when
/// the output's length overflows `usize`, which needs an input longer than
/// three quarters of `usize::MAX` bytes; no slice is that long, as Rust
/// bounds every allocation by `isize::MAX` bytes.
#[verifier::external_body]
fn base64_url_encode(bytes: &[u8]) -> (r: String)
    ensures
        r@ == base64_url_encoding(bytes@),
{
    URL_SAFE_NO_PAD.encode(bytes)
}

/// Calls `base64::Engine::decode` on `URL_SAFE_NO_PAD`, which accepts no
/// padding and no trailing bits: it succeeds exactly on the canonical
/// unpadded texts, and then gives back the bytes that were encoded. The
/// crate's error value is turned into `None`.
#[verifier::external_body]
fn base64_url_decode(text: &str) -> (r: Option<Vec<u8>>)
    ensures
        r matches Some(b) ==> base64_url_encoding(b@) == text@,
        forall|b: Seq<u8>| #[trigger] base64_url_encoding(b) == text@ ==> r is Some && r->0@ == b,
{
    URL_SAFE_NO_PAD.decode(text).ok()
}

/// Calls `String::from_utf8`: it succeeds exactly when the bytes are valid
/// UTF-8, and then holds the characters they encode. The error value is
/// turned into `None`.
#[verifier::external_body]
fn string_from_utf8(bytes: Vec<u8>) -> (r: Option<String>)
    ensures
        r is Some <==> valid_utf8(bytes@),
        r matches Some(s) ==> s@ == decode_utf8(bytes@),
{
    String::from_utf8(bytes).ok()
}

/// Five ASCII letters, the form a shared word must have.
pub open spec fn is_five_letters(w: Seq<char>) -> bool {
    w.len() == WORD_LENGTH && forall|i: int| 0 <= i < w.len() ==> is_letter(#[trigger] w[i])
}

/// The word a link's parameter stands for: the text must be the unpadded
/// URL-safe base64 of some bytes; those must be UTF-8; lower-cased, the
/// string must be five ASCII letters.
pub open spec fn shared_word_of(encoded: Seq<char>) -> Option<Seq<char>> {
    if exists|b: Seq<u8>| #[trigger] base64_url_encoding(b) == encoded {
        let b = choose|b: Seq<u8>| #[trigger] base64_url_encoding(b) == encoded;
        if valid_utf8(b) && is_five_letters(lowercased(decode_utf8(b))) {
            Some(lowercased(decode_utf8(b)))
        } else {
            None
        }
    } else {
        None
    }
}

/// Encodes a word as URL-safe base64 of its UTF-8 bytes, without padding.
pub fn encode_word(word: &str) -> (r: String)
    ensures
        r@ == base64_url_encoding(encode_utf8(word@)),
{
    base64_url_encode(word.as_bytes())
}

/// Decodes a link's parameter back to a word: base64, then UTF-8, then
/// lower-cased; only five ASCII letters are accepted, so a decoded word is
/// always five lower-case letters.
pub fn decode_word(encoded: &str) -> (r: Option<String>)
    ensures
        match shared_word_of(encoded@) {
            Some(w) => r matches Some(s) && s@ == w,
            None => r is None,
        },
        r matches Some(s) ==> s@.len() == WORD_LENGTH && is_lower_word(s@),
{
    let bytes = match base64_url_decode(encoded) {
        Some(b) => b,
        None => {
            return None;
        },
    };
    proof {
        assert(base64_url_encoding(bytes@) == encoded@);
        let b = choose|b: Seq<u8>| #[trigger] base64_url_encoding(b) == encoded@;
        assert(bytes@ == b);
    }
    let s = match string_from_utf8(bytes) {
        Some(s) => s,
        None => {
            return None;
        },
    };
    let lower = to_lowercase(s.as_str());
    let cs = chars_of(lower.as_str());
    // All letters are ASCII, so counting characters counts bytes.
    if cs.len() != WORD_LENGTH {
        return None;
    }
    assert(shared_word_of(encoded@) == if is_five_letters(cs@) {
        Some(cs@)
    } else {
        None::<Seq<char>>
    });
    let mut i: usize = 0;
    while i < cs.len()
        invariant
            i <= cs.len(),
            lower@ == cs@,
            cs@.len() == WORD_LENGTH,
            shared_word_of(encoded@) == if is_five_letters(cs@) {
                Some(cs@)
            } else {
                None::<Seq<char>>
            },
            forall|k: int| 0 <= k < i ==> is_letter(#[trigger] cs@[k]),
        decreases cs.len() - i,
    {
        if !is_ascii_alphabetic(cs[i]) {
            assert(!is_letter(cs@[i as int]));
            return None;
        }
        i += 1;
    }
    assert forall|k: int| 0 <= k < lower@.len() implies crate::text::is_lower_letter(
        #[trigger] lower@[k],
    ) by {
        assert(is_letter(cs@[k]));
        assert(!('A' <= lower@[k] <= 'Z'));
    }
    Some(lower)
}

proof fn lemma_symbol_injective(v: int, w: int)
    requires
        0 <= v < 64,
        0 <= w < 64,
        url_safe_symbol(v) == url_safe_symbol(w),
    ensures
        v == w,
{
    let a = url_safe_symbol(v) as u32;
    let b = url_safe_symbol(w) as u32;
    assert(a == b);
}

proof fn lemma_encoding_len(b: Seq<u8>)
    ensures
        base64_url_encoding(b).len() == 4 * (b.len() / 3) + if b.len() % 3 == 0 {
            0int
        } else if b.len() % 3 == 1 {
            2int
        } else {
            3int
        },
    decreases b.len(),
{
    if b.len() >= 3 {
        lemma_encoding_len(b.skip(3));
    }
}

proof fn lemma_two_digits(a: int, b: int, c: int, d: int, base: int)
    requires
        0 <= b < base,
        0 <= d < base,
        a * base + b == c * base + d,
        base > 0,
    ensures
        a == c,
        b == d,
{
    assert(a == c) by (nonlinear_arith)
        requires
            0 <= b < base,
            0 <= d < base,
            a * base + b == c * base + d,
    ;
}

/// Different byte strings have different encodings.
proof fn lemma_encoding_injective(b1: Seq<u8>, b2: Seq<u8>)
    requires
        base64_url_encoding(b1) == base64_url_encoding(b2),
    ensures
        b1 == b2,
    decreases b1.len(),
{
    lemma_encoding_len(b1);
    lemma_encoding_len(b2);
    let e = base64_url_encoding(b1);
    assert(b1.len() == b2.len());
    if b1.len() >= 1 {
        let (x1, x2) = (b1[0] as int, b2[0] as int);
        assert(e[0] == url_safe_symbol(x1 / 4) && e[0] == url_safe_symbol(x2 / 4));
        lemma_symbol_injective(x1 / 4, x2 / 4);
        if b1.len() == 1 {
            assert(e[1] == url_safe_symbol((x1 % 4) * 16) && e[1] == url_safe_symbol((x2 % 4) * 16));
            lemma_symbol_injective((x1 % 4) * 16, (x2 % 4) * 16);
            assert(b1 =~= b2);
        } else {
            let (y1, y2) = (b1[1] as int, b2[1] as int);
            assert(e[1] == url_safe_symbol((x1 % 4) * 16 + y1 / 16));
            assert(e[1] == url_safe_symbol((x2 % 4) * 16 + y2 / 16));
            lemma_symbol_injective((x1 % 4) * 16 + y1 / 16, (x2 % 4) * 16 + y2 / 16);
            lemma_two_digits(x1 % 4, y1 / 16, x2 % 4, y2 / 16, 16);
            if b1.len() == 2 {
                assert(e[2] == url_safe_symbol((y1 % 16) * 4) && e[2] == url_safe_symbol((y2 % 16) * 4));
                lemma_symbol_injective((y1 % 16) * 4, (y2 % 16) * 4);
                assert(b1 =~= b2);
            } else {
                let (z1, z2) = (b1[2] as int, b2[2] as int);
                assert(e[2] == url_safe_symbol((y1 % 16) * 4 + z1 / 64));
                assert(e[2] == url_safe_symbol((y2 % 16) * 4 + z2 / 64));
                lemma_symbol_injective((y1 % 16) * 4 + z1 / 64, (y2 % 16) * 4 + z2 / 64);
                lemma_two_digits(y1 % 16, z1 / 64, y2 % 16, z2 / 64, 4);
                assert(e[3] == url_safe_symbol(z1 % 64) && e[3] == url_safe_symbol(z2 % 64));
                lemma_symbol_injective(z1 % 64, z2 % 64);
                assert(base64_url_encoding(b1.skip(3)) =~= e.skip(4));
                assert(base64_url_encoding(b2.skip(3)) =~= e.skip(4));
                lemma_encoding_injective(b1.skip(3), b2.skip(3));
                assert(b1 =~= b2) by {
                    assert forall|i: int| 0 <= i < b1.len() implies b1[i] == b2[i] by {
                        if i >= 3 {
                            assert(b1[i] == b1.skip(3)[i - 3]);
                            assert(b2[i] == b2.skip(3)[i - 3]);
                        }
                    }
                }
            }
        }
    }
}

/// A link made for a game word gives that word back: decoding the link's
/// parameter for a five-letter lower-case word yields the word itself.
pub proof fn law_shared_word_round_trip(w: Seq<char>)
    requires
        w.len() == WORD_LENGTH,
        is_lower_word(w),
    ensures
        shared_word_of(base64_url_encoding(encode_utf8(w))) == Some(w),
{
    let b = encode_utf8(w);
    let e = base64_url_encoding(b);
    assert(exists|b2: Seq<u8>| #[trigger] base64_url_encoding(b2) == e);
    let c = choose|b2: Seq<u8>| #[trigger] base64_url_encoding(b2) == e;
    lemma_encoding_injective(c, b);
    vstd::utf8::encode_utf8_valid_utf8(w);
    vstd::utf8::encode_utf8_decode_utf8(w);
    assert(is_ascii_chars(w)) by {
        assert forall|i: int| 0 <= i < w.len() implies '\0' <= #[trigger] w[i] <= '\u{7f}' by {
            assert(crate::text::is_lower_letter(w[i]));
        }
    }
    assert(w.map_values(|ch: char| ascii_lower(ch)) =~= w) by {
        assert forall|i: int| 0 <= i < w.len() implies #[trigger] ascii_lower(w[i]) == w[i] by {
            assert(crate::text::is_lower_letter(w[i]));
        }
    }
    assert(is_five_letters(w)) by {
        assert forall|i: int| 0 <= i < w.len() implies is_letter(#[trigger] w[i]) by {
            assert(crate::text::is_lower_letter(w[i]));
        }
    }
}

/// Different words make different links.
pub proof fn law_links_distinguish_words(w1: Seq<char>, w2: Seq<char>)
    requires
        base64_url_encoding(encode_utf8(w1)) == base64_url_encoding(encode_utf8(w2)),
    ensures
        w1 == w2,
{
    lemma_encoding_injective(encode_utf8(w1), encode_utf8(w2));
    vstd::utf8::encode_utf8_decode_utf8(w1);
    vstd::utf8::encode_utf8_decode_utf8(w2);
}

} // verus!
