use keyhook::chord::{parse_chord, Chord};
use keyhook::keys::{Key, KeybdKey, MouseButton};
use keyhook::text::{split_name, str_eq};

fn parts(name: &str) -> Vec<String> {
    let chars: Vec<char> = name.chars().collect();
    split_name(name).iter().map(|(from, to)| chars[*from..*to].iter().collect()).collect()
}

#[test]
fn str_eq_compares_characters() {
    assert!(str_eq("", ""));
    assert!(str_eq("KeyA", "KeyA"));
    assert!(!str_eq("KeyA", "KeyB"));
    assert!(!str_eq("KeyA", "KeyAA"));
    assert!(!str_eq("KeyA", "Key"));
    assert!(!str_eq("keya", "KeyA"));
    assert!(str_eq("gr\u{fc}n", "gr\u{fc}n"));
    assert!(!str_eq("gr\u{fc}n", "grun"));
}

#[test]
fn a_plain_name_is_one_segment() {
    assert_eq!(parts("KeyA"), vec!["KeyA"]);
    assert_eq!(split_name("KeyA"), vec![(0, 4)]);
}

#[test]
fn the_empty_name_is_one_empty_segment() {
    assert_eq!(parts(""), vec![""]);
    assert_eq!(split_name(""), vec![(0, 0)]);
}

#[test]
fn every_underscore_adds_a_segment() {
    assert_eq!(parts("ControlLeft_KeyS"), vec!["ControlLeft", "KeyS"]);
    assert_eq!(split_name("ControlLeft_KeyS"), vec![(0, 11), (12, 16)]);
    assert_eq!(parts("a_b_c_d"), vec!["a", "b", "c", "d"]);
    assert_eq!(parts("_"), vec!["", ""]);
    assert_eq!(parts("KeyA_"), vec!["KeyA", ""]);
    assert_eq!(parts("_KeyA"), vec!["", "KeyA"]);
    assert_eq!(parts("a__b"), vec!["a", "", "b"]);
}

#[test]
fn segments_are_counted_in_characters() {
    assert_eq!(split_name("\u{e9}\u{e9}_\u{1f600}"), vec![(0, 2), (3, 4)]);
    assert_eq!(parts("\u{e9}\u{e9}_\u{1f600}"), vec!["\u{e9}\u{e9}", "\u{1f600}"]);
}

#[test]
fn split_agrees_with_std() {
    for name in ["", "_", "__", "KeyA", "A_B", "_A_", "Control_Shift_KeyA_KeyB", "x_\u{e9}_y"] {
        let expected: Vec<String> = name.split('_').map(|part| part.to_string()).collect();
        assert_eq!(parts(name), expected, "{:?}", name);
    }
}

#[test]
fn a_single_key_is_a_chord_without_modifiers() {
    assert_eq!(
        parse_chord("KeyA"),
        Some(Chord { modifiers: vec![], trigger: Key::Keybd(KeybdKey::AKey) })
    );
    assert_eq!(
        parse_chord("RightButton"),
        Some(Chord { modifiers: vec![], trigger: Key::Mouse(MouseButton::RightButton) })
    );
}

#[test]
fn the_last_segment_is_the_trigger() {
    assert_eq!(
        parse_chord("ControlLeft_KeyS"),
        Some(Chord {
            modifiers: vec![KeybdKey::LControlKey],
            trigger: Key::Keybd(KeybdKey::SKey)
        })
    );
    assert_eq!(
        parse_chord("KeyS_ControlLeft"),
        Some(Chord {
            modifiers: vec![KeybdKey::SKey],
            trigger: Key::Keybd(KeybdKey::LControlKey)
        })
    );
    assert_eq!(
        parse_chord("ControlLeft_ShiftLeft_KeyA"),
        Some(Chord {
            modifiers: vec![KeybdKey::LControlKey, KeybdKey::LShiftKey],
            trigger: Key::Keybd(KeybdKey::AKey)
        })
    );
    assert_eq!(
        parse_chord("Alt_LeftButton"),
        Some(Chord {
            modifiers: vec![KeybdKey::AltKey],
            trigger: Key::Mouse(MouseButton::LeftButton)
        })
    );
}

#[test]
fn four_segments_are_no_chord() {
    assert_eq!(parse_chord("ControlLeft_ShiftLeft_AltLeft_KeyA"), None);
    assert_eq!(parse_chord("KeyA_KeyB_KeyC_KeyD_KeyE"), None);
    assert_eq!(parse_chord("___"), None);
}

#[test]
fn an_unknown_segment_is_no_chord() {
    assert_eq!(parse_chord(""), None);
    assert_eq!(parse_chord("Nothing"), None);
    assert_eq!(parse_chord("Nothing_KeyA"), None);
    assert_eq!(parse_chord("ControlLeft_Nothing"), None);
    assert_eq!(parse_chord("ControlLeft_Nothing_KeyA"), None);
    assert_eq!(parse_chord("KeyA_"), None);
    assert_eq!(parse_chord("_KeyA"), None);
    assert_eq!(parse_chord("controlleft_keys"), None);
    assert_eq!(parse_chord("VKey"), None);
    assert_eq!(parse_chord("ControlLeft_VKey"), None);
    assert_eq!(parse_chord("VKey_KeyA"), None);
}

#[test]
fn a_mouse_button_is_no_modifier() {
    assert_eq!(parse_chord("LeftButton_KeyA"), None);
    assert_eq!(parse_chord("ControlLeft_LeftButton_KeyA"), None);
}
