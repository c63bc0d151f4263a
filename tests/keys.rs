use xlock::{
    classify_keysym, is_modifier, keysym_to_char, Key, KEYSYM_BACKSPACE, KEYSYM_ESCAPE,
    KEYSYM_RETURN,
};

#[test]
fn control_keys_are_classified() {
    assert_eq!(classify_keysym(KEYSYM_RETURN), Key::Submit);
    assert_eq!(classify_keysym(0xff0d), Key::Submit);
    assert_eq!(classify_keysym(KEYSYM_ESCAPE), Key::Cancel);
    assert_eq!(classify_keysym(0xff1b), Key::Cancel);
    assert_eq!(classify_keysym(KEYSYM_BACKSPACE), Key::Erase);
    assert_eq!(classify_keysym(0xff08), Key::Erase);
}

#[test]
fn modifiers_are_classified() {
    for sym in [0xffe1u32, 0xffe2, 0xffe5, 0xffe9, 0xffee, 0xfe01, 0xfe03, 0xfe13, 0xff7e, 0xff7f] {
        assert!(is_modifier(sym), "{sym:#x}");
        assert_eq!(classify_keysym(sym), Key::Modifier);
    }
    for sym in [0xffe0u32, 0xffef, 0xfe00, 0xfe14, 0x61] {
        assert!(!is_modifier(sym), "{sym:#x}");
    }
}

#[test]
fn printable_keysyms_become_text() {
    assert_eq!(classify_keysym(0x61), Key::Text('a'));
    assert_eq!(classify_keysym(0x41), Key::Text('A'));
    assert_eq!(classify_keysym(0x20), Key::Text(' '));
    assert_eq!(classify_keysym(0xe9), Key::Text('é'));
}

#[test]
fn non_scalar_keysyms_are_unresolved() {
    assert_eq!(classify_keysym(0x0100_0041), Key::Unresolved);
    assert_eq!(classify_keysym(0xd800), Key::Unresolved);
    assert_eq!(classify_keysym(0x11_0000), Key::Unresolved);
}

#[test]
fn keysym_to_char_follows_scalar_values() {
    assert_eq!(keysym_to_char(0x7a), Some('z'));
    assert_eq!(keysym_to_char(0x20ac), Some('€'));
    assert_eq!(keysym_to_char(0xdfff), None);
    assert_eq!(keysym_to_char(0xffff_ffff), None);
}
