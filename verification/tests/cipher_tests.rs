use rot13::cipher::rot13;

#[test]
fn hello_world_encrypts() {
    assert_eq!(rot13("Hello, World!"), "Uryyb, Jbeyq!");
}

#[test]
fn hello_world_round_trips() {
    let once = rot13("Hello, World!");
    assert_eq!(rot13(&once), "Hello, World!");
}

#[test]
fn self_inverse_on_mixed_text() {
    let text = "The Quick Brown Fox Jumps Over The Lazy Dog, 13 times!";
    assert_eq!(rot13(&rot13(text)), text);
}

#[test]
fn length_is_preserved() {
    let text = "abcXYZ 123 !?";
    assert_eq!(rot13(text).chars().count(), text.chars().count());
}

#[test]
fn alphabet_boundaries() {
    assert_eq!(rot13("AMNZ"), "NZAM");
    assert_eq!(rot13("amnz"), "nzam");
}

#[test]
fn non_letters_unchanged() {
    assert_eq!(rot13("0123456789 .,;:!?-_[]{}"), "0123456789 .,;:!?-_[]{}");
}

#[test]
fn non_ascii_passes_through() {
    assert_eq!(rot13("h\u{e9}llo"), "u\u{e9}yyb");
}

#[test]
fn empty_text() {
    assert_eq!(rot13(""), "");
}
