use kernel::keyboard::{recognize, Decoder, GameKey, KeyInput};

#[test]
fn decoder_assembles_multibyte_scancodes() {
    let mut d = Decoder::new();
    assert_eq!(d.push_byte(0xE0), None);
    assert_eq!(d.push_byte(0x4B), Some(KeyInput::ArrowLeft));
    assert_eq!(d.push_byte(0xE0), None);
    assert_eq!(d.push_byte(0x4D), Some(KeyInput::ArrowRight));
}

#[test]
fn decoder_translates_characters_and_ignores_releases() {
    let mut d = Decoder::new();
    assert_eq!(d.push_byte(0x1E), Some(KeyInput::Character('a')));
    assert_eq!(d.push_byte(0x9E), None);
    assert_eq!(d.push_byte(0x39), Some(KeyInput::Character(' ')));
    assert_eq!(d.push_byte(0x10), Some(KeyInput::Character('q')));
}

#[test]
fn recognized_keys_are_exactly_the_movement_and_fire_set() {
    assert_eq!(recognize(KeyInput::Character(' ')), Some(GameKey::Fire));
    assert_eq!(recognize(KeyInput::Character('a')), Some(GameKey::MoveLeft));
    assert_eq!(recognize(KeyInput::Character('d')), Some(GameKey::MoveRight));
    assert_eq!(recognize(KeyInput::ArrowLeft), Some(GameKey::MoveLeft));
    assert_eq!(recognize(KeyInput::ArrowRight), Some(GameKey::MoveRight));
    assert_eq!(recognize(KeyInput::Character('q')), None);
    assert_eq!(recognize(KeyInput::Character('A')), None);
    assert_eq!(recognize(KeyInput::OtherRaw), None);
}
