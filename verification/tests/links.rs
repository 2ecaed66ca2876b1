use ohmywordle::page::{build_url_for_word, filter_link_input, install_instructions, letter_state_class};
use ohmywordle::share::{decode_word, encode_word};
use ohmywordle::game::TileState;

#[test]
fn readme_example_link_decodes_to_brave() {
    assert_eq!(decode_word("YnJhdmU"), Some("brave".to_string()));
    assert_eq!(encode_word("brave"), "YnJhdmU");
}

#[test]
fn encoding_follows_the_url_safe_alphabet() {
    assert_eq!(encode_word(""), "");
    assert_eq!(encode_word("f"), "Zg");
    assert_eq!(encode_word("fo"), "Zm8");
    assert_eq!(encode_word("foo"), "Zm9v");
    assert_eq!(encode_word("\u{3ff}\u{ffff}"), "z7_vv78");
}

#[test]
fn shared_words_are_lower_cased() {
    let e = encode_word("BRAVE");
    assert_eq!(decode_word(&e), Some("brave".to_string()));
}

#[test]
fn round_trip_for_game_words() {
    for w in ["crane", "slate", "zesty", "abbey"] {
        assert_eq!(decode_word(&encode_word(w)), Some(w.to_string()));
    }
}

#[test]
fn bad_links_give_no_word() {
    // not base64
    assert_eq!(decode_word("!!!!"), None);
    // padded input is refused
    assert_eq!(decode_word("YnJhdmU="), None);
    // wrong length
    assert_eq!(decode_word(&encode_word("brav")), None);
    assert_eq!(decode_word(&encode_word("braves")), None);
    // not letters
    assert_eq!(decode_word(&encode_word("br4ve")), None);
    // not UTF-8
    assert_eq!(decode_word("_w"), None);
    // non-canonical trailing bits
    assert_eq!(decode_word("Zh"), None);
}

#[test]
fn url_carries_the_encoded_word() {
    assert_eq!(
        build_url_for_word("https://example.org", "/OhMyWordle/", "brave"),
        "https://example.org/OhMyWordle/?w=YnJhdmU"
    );
}

#[test]
fn install_banner_by_device() {
    let iphone = install_instructions("Mozilla/5.0 (iPhone; CPU iPhone OS 17_0 like Mac OS X)");
    assert_eq!(iphone, Some(("📤", "Tap the Share button then select \"Add to Home Screen\"")));
    assert!(install_instructions("Mozilla/5.0 (iPad; CPU OS 16_0)").is_some());
    assert!(install_instructions("something IPOD something").is_some());
    assert_eq!(
        install_instructions("Mozilla/5.0 (Linux; Android 14)"),
        Some(("⋮", "Tap the browser menu then select \"Add to Home Screen\""))
    );
    assert_eq!(install_instructions("Mozilla/5.0 (X11; Linux x86_64)"), None);
    assert_eq!(install_instructions(""), None);
}

#[test]
fn link_box_keeps_five_lower_case_letters() {
    assert_eq!(filter_link_input("Br4a-VeRY"), "brave");
    assert_eq!(filter_link_input("ab"), "ab");
    assert_eq!(filter_link_input("12 34"), "");
    assert_eq!(filter_link_input("éclair"), "clair");
}

#[test]
fn tile_classes() {
    assert_eq!(letter_state_class(&TileState::Correct), "correct");
    assert_eq!(letter_state_class(&TileState::Present), "present");
    assert_eq!(letter_state_class(&TileState::Absent), "absent");
    assert_eq!(letter_state_class(&TileState::Filled), "filled");
    assert_eq!(letter_state_class(&TileState::Empty), "");
}

#[test]
fn different_words_make_different_links() {
    let words = ["crane", "crank", "brave", "grave", "abcde"];
    for a in words {
        for b in words {
            assert_eq!(a == b, encode_word(a) == encode_word(b));
        }
    }
}
