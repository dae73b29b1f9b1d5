use keyhook::keys::{
    get_key, get_keybd_key, get_mouse_key, Key, KeybdKey, MouseButton, KEYBD_KEYS, MOUSE_BUTTONS,
};

fn keyboard_table() -> Vec<(&'static str, KeybdKey)> {
    vec![
        ("Backquote", KeybdKey::BackquoteKey),
        ("Numpad0", KeybdKey::Numpad0Key),
        ("Numpad1", KeybdKey::Numpad1Key),
        ("Numpad2", KeybdKey::Numpad2Key),
        ("Numpad3", KeybdKey::Numpad3Key),
        ("Numpad4", KeybdKey::Numpad4Key),
        ("Numpad5", KeybdKey::Numpad5Key),
        ("Numpad6", KeybdKey::Numpad6Key),
        ("Numpad7", KeybdKey::Numpad7Key),
        ("Numpad8", KeybdKey::Numpad8Key),
        ("Numpad9", KeybdKey::Numpad9Key),
        ("NumpadAdd", KeybdKey::AddKey),
        ("Equal", KeybdKey::EqualKey),
        ("Minus", KeybdKey::MinusKey),
        ("NumpadSubtract", KeybdKey::SubtractKey),
        ("NumpadDivide", KeybdKey::DivideKey),
        ("Shift", KeybdKey::ShiftKey),
        ("ShiftLeft", KeybdKey::LShiftKey),
        ("ShiftRight", KeybdKey::RShiftKey),
        ("Control", KeybdKey::ControlKey),
        ("ControlLeft", KeybdKey::LControlKey),
        ("ControlRight", KeybdKey::RControlKey),
        ("Alt", KeybdKey::AltKey),
        ("AltLeft", KeybdKey::LAltKey),
        ("AltRight", KeybdKey::RAltKey),
        ("KeyA", KeybdKey::AKey),
        ("KeyB", KeybdKey::BKey),
        ("KeyC", KeybdKey::CKey),
        ("KeyD", KeybdKey::DKey),
        ("KeyE", KeybdKey::EKey),
        ("KeyF", KeybdKey::FKey),
        ("KeyG", KeybdKey::GKey),
        ("KeyH", KeybdKey::HKey),
        ("KeyI", KeybdKey::IKey),
        ("KeyJ", KeybdKey::JKey),
        ("KeyK", KeybdKey::KKey),
        ("KeyL", KeybdKey::LKey),
        ("KeyM", KeybdKey::MKey),
        ("KeyN", KeybdKey::NKey),
        ("KeyO", KeybdKey::OKey),
        ("KeyP", KeybdKey::PKey),
        ("KeyQ", KeybdKey::QKey),
        ("KeyR", KeybdKey::RKey),
        ("KeyS", KeybdKey::SKey),
        ("KeyT", KeybdKey::TKey),
        ("KeyU", KeybdKey::UKey),
        ("KeyV", KeybdKey::VKey),
        ("KeyW", KeybdKey::WKey),
        ("KeyX", KeybdKey::XKey),
        ("KeyY", KeybdKey::YKey),
        ("KeyZ", KeybdKey::ZKey),
        ("F1", KeybdKey::F1Key),
        ("F2", KeybdKey::F2Key),
        ("F3", KeybdKey::F3Key),
        ("F4", KeybdKey::F4Key),
        ("F5", KeybdKey::F5Key),
        ("F6", KeybdKey::F6Key),
        ("F7", KeybdKey::F7Key),
        ("F8", KeybdKey::F8Key),
        ("F9", KeybdKey::F9Key),
        ("F10", KeybdKey::F10Key),
        ("F11", KeybdKey::F11Key),
        ("F12", KeybdKey::F12Key),
        ("CapsLock", KeybdKey::CapsLockKey),
        ("Comma", KeybdKey::CommaKey),
        ("Period", KeybdKey::PeriodKey),
        ("Quote", KeybdKey::QuoteKey),
        ("Slash", KeybdKey::SlashKey),
        ("Backslash", KeybdKey::BackslashKey),
        ("Semicolon", KeybdKey::SemicolonKey),
        ("BracketLeft", KeybdKey::LBracketKey),
        ("BracketRight", KeybdKey::RBracketKey),
        ("Backspace", KeybdKey::BackspaceKey),
        ("Enter", KeybdKey::EnterKey),
        ("Tab", KeybdKey::TabKey),
        ("Escape", KeybdKey::EscapeKey),
        ("Space", KeybdKey::SpaceKey),
        ("ArrowLeft", KeybdKey::LeftKey),
        ("ArrowUp", KeybdKey::UpKey),
        ("ArrowRight", KeybdKey::RightKey),
        ("ArrowDown", KeybdKey::DownKey),
        ("BrowserForward", KeybdKey::BrowserForwardKey),
        ("BrowserBack", KeybdKey::BrowserBackKey),
    ]
}

fn mouse_table() -> Vec<(&'static str, MouseButton)> {
    vec![
        ("LeftButton", MouseButton::LeftButton),
        ("RightButton", MouseButton::RightButton),
        ("MiddleButton", MouseButton::MiddleButton),
        ("X1Button", MouseButton::X1Button),
        ("X2Button", MouseButton::X2Button),
    ]
}

#[test]
fn every_keyboard_name_gives_its_key() {
    let table = keyboard_table();
    assert_eq!(table.len(), 83);
    for (name, key) in &table {
        assert_eq!(get_keybd_key(name), Some(*key), "{}", name);
    }
}

#[test]
fn keyboard_names_give_distinct_keys() {
    let table = keyboard_table();
    for (i, (first, _)) in table.iter().enumerate() {
        for (second, _) in &table[i + 1..] {
            assert_ne!(get_keybd_key(first), get_keybd_key(second), "{} {}", first, second);
        }
    }
}

#[test]
fn keyboard_lookup_is_stable() {
    for (name, _) in &keyboard_table() {
        assert_eq!(get_keybd_key(name), get_keybd_key(name));
    }
}

#[test]
fn the_v_key_has_one_name() {
    assert_eq!(get_keybd_key("KeyV"), Some(KeybdKey::VKey));
    assert_eq!(get_keybd_key("VKey"), None);
    assert_eq!(get_mouse_key("VKey"), None);
    assert_eq!(get_key("VKey"), None);
}

#[test]
fn no_key_is_found_under_its_variant_name() {
    for name in [
        "AKey", "VKey", "ZKey", "F1Key", "AddKey", "LShiftKey", "LControlKey", "LeftKey",
        "EnterKey", "BackquoteKey", "Numpad0Key", "BrowserBackKey",
    ] {
        assert_eq!(get_key(name), None, "{}", name);
    }
}

#[test]
fn every_found_key_has_exactly_one_name() {
    let table = keyboard_table();
    let mut found = Vec::new();
    for (name, _) in &table {
        let key = get_keybd_key(name).unwrap();
        assert!(!found.contains(&key), "{}", name);
        found.push(key);
    }
    assert_eq!(found.len(), 83);
}

#[test]
fn every_mouse_name_gives_its_button() {
    let table = mouse_table();
    for (name, button) in &table {
        assert_eq!(get_mouse_key(name), Some(*button), "{}", name);
    }
    for (i, (first, _)) in table.iter().enumerate() {
        for (second, _) in &table[i + 1..] {
            assert_ne!(get_mouse_key(first), get_mouse_key(second));
        }
    }
}

#[test]
fn unknown_names_are_not_found() {
    for name in [
        "", "keya", "KEYA", "KeyA ", " KeyA", "Key", "KeyAA", "F13", "F0", "Numpad10", "Meta",
        "AKey", "VKey", "Button", "leftbutton", "X3Button", "ControlLeft_KeyS", "_", "Key\u{e9}",
        "\u{1f600}",
    ] {
        assert_eq!(get_keybd_key(name), None, "{:?}", name);
        assert_eq!(get_mouse_key(name), None, "{:?}", name);
        assert_eq!(get_key(name), None, "{:?}", name);
    }
}

#[test]
fn tables_share_no_name() {
    for (name, _) in &keyboard_table() {
        assert_eq!(get_mouse_key(name), None);
    }
    for (name, _) in &mouse_table() {
        assert_eq!(get_keybd_key(name), None);
    }
}

#[test]
fn every_key_has_its_own_number() {
    let mut keys: Vec<Key> =
        keyboard_table().iter().map(|(_, key)| Key::Keybd(*key)).collect();
    keys.extend(mouse_table().iter().map(|(_, button)| Key::Mouse(*button)));
    assert_eq!(keys.len(), 88);
    for (place, key) in keys.iter().enumerate() {
        assert_eq!(key.code(), place as u64, "{:?}", key);
    }
    assert_eq!(KEYBD_KEYS, 83);
    assert_eq!(MOUSE_BUTTONS, 5);
    assert_eq!(KeybdKey::BackquoteKey.code(), 0);
    assert_eq!(KeybdKey::BrowserBackKey.code(), 82);
    assert_eq!(MouseButton::LeftButton.code(), 0);
    assert_eq!(MouseButton::X2Button.code(), 4);
    assert_eq!(Key::Mouse(MouseButton::LeftButton).code(), 83);
    assert_eq!(Key::Mouse(MouseButton::X2Button).code(), 87);
}

#[test]
fn get_key_looks_in_both_tables() {
    assert_eq!(get_key("KeyA"), Some(Key::Keybd(KeybdKey::AKey)));
    assert_eq!(get_key("Enter"), Some(Key::Keybd(KeybdKey::EnterKey)));
    assert_eq!(get_key("LeftButton"), Some(Key::Mouse(MouseButton::LeftButton)));
    assert_eq!(get_key("X2Button"), Some(Key::Mouse(MouseButton::X2Button)));
    assert_eq!(get_key("Nothing"), None);
}
