use keyhook::handler::{Handler, Payload, HOLD_INTERVAL_MS, HOLD_PRESSED};
use keyhook::keys::{Key, KeybdKey, MouseButton};
use keyhook::registry::{Binding, Registry};
use keyhook::{add_callback, bind_hold_key, bind_key, update_binds};

fn press(event: &str, gates: Vec<KeybdKey>) -> Handler {
    Handler::Press { window: "main".to_string(), event: event.to_string(), gates }
}

fn hold(event: &str, key: Key) -> Handler {
    Handler::Hold { window: "main".to_string(), event: event.to_string(), key }
}

const A: Key = Key::Keybd(KeybdKey::AKey);
const S: Key = Key::Keybd(KeybdKey::SKey);
const LEFT: Key = Key::Mouse(MouseButton::LeftButton);

#[test]
fn constants_of_the_hold_protocol() {
    assert_eq!(HOLD_INTERVAL_MS, 10);
    assert_eq!(HOLD_PRESSED, 1);
    assert_eq!(Payload { pressed: HOLD_PRESSED }, Payload { pressed: 1 });
}

#[test]
fn handler_constructors_name_the_event() {
    assert_eq!(Handler::press("main", "KeyA", vec![]), press("pressKeyA", vec![]));
    assert_eq!(
        Handler::press("main", "ControlLeft_KeyS", vec![KeybdKey::LControlKey]),
        press("pressControlLeft_KeyS", vec![KeybdKey::LControlKey])
    );
    assert_eq!(Handler::hold("main", "LeftButton", LEFT), hold("holdLeftButton", LEFT));
    assert_eq!(Handler::press("main", "", vec![]), press("press", vec![]));
    assert_eq!(
        Handler::press("settings", "KeyA", vec![]),
        Handler::Press {
            window: "settings".to_string(),
            event: "pressKeyA".to_string(),
            gates: vec![]
        }
    );
    assert_eq!(
        Handler::hold("", "KeyA", A),
        Handler::Hold { window: String::new(), event: "holdKeyA".to_string(), key: A }
    );
    assert_ne!(Handler::press("main", "KeyA", vec![]), Handler::press("other", "KeyA", vec![]));
}

#[test]
fn handler_clone_is_equal() {
    let first = press("pressA", vec![KeybdKey::LControlKey, KeybdKey::LShiftKey]);
    assert_eq!(first.clone(), first);
    let second = hold("holdB", LEFT);
    assert_eq!(second.clone(), second);
}

#[test]
fn a_new_registry_is_empty() {
    let registry = Registry::new();
    assert_eq!(registry.handlers(A), None);
    assert_eq!(registry.handlers(LEFT), None);
    assert_eq!(update_binds(&registry), vec![]);
}

#[test]
fn merge_insert_binds_an_unbound_key() {
    let mut registry = Registry::new();
    registry.merge_insert(A, press("one", vec![]));
    assert_eq!(registry.handlers(A), Some(vec![press("one", vec![])]));
    assert_eq!(registry.handlers(S), None);
}

#[test]
fn two_handlers_for_one_key_are_kept_in_order() {
    let mut registry = Registry::new();
    add_callback(&mut registry, "KeyA", press("A", vec![]));
    add_callback(&mut registry, "KeyA", press("B", vec![]));
    assert_eq!(registry.handlers(A), Some(vec![press("A", vec![]), press("B", vec![])]));
    assert_eq!(
        update_binds(&registry),
        vec![Binding { key: A, handlers: vec![press("A", vec![]), press("B", vec![])] }]
    );
}

#[test]
fn many_handlers_for_one_key_are_kept_in_order() {
    let mut registry = Registry::new();
    let mut expected = Vec::new();
    for i in 0..50 {
        let handler = press(&format!("event{}", i), vec![]);
        expected.push(handler.clone());
        registry.merge_insert(S, handler);
        registry.merge_insert(A, hold(&format!("other{}", i), A));
    }
    assert_eq!(registry.handlers(S), Some(expected));
    assert_eq!(registry.handlers(A).map(|handlers| handlers.len()), Some(50));
    assert_eq!(update_binds(&registry).len(), 2);
}

#[test]
fn add_callback_passes_over_an_unknown_name() {
    let mut registry = Registry::new();
    add_callback(&mut registry, "Nothing", press("A", vec![]));
    add_callback(&mut registry, "", press("A", vec![]));
    add_callback(&mut registry, "ControlLeft_KeyS", press("A", vec![]));
    assert_eq!(update_binds(&registry), vec![]);
}

#[test]
fn add_callback_finds_mouse_buttons() {
    let mut registry = Registry::new();
    add_callback(&mut registry, "LeftButton", press("click", vec![]));
    assert_eq!(registry.handlers(LEFT), Some(vec![press("click", vec![])]));
}

#[test]
fn bind_key_single_key() {
    let mut registry = Registry::new();
    bind_key(&mut registry, "main", "KeyA".to_string());
    assert_eq!(registry.handlers(A), Some(vec![press("pressKeyA", vec![])]));
}

#[test]
fn bind_key_chord_is_registered_under_the_trigger() {
    let mut registry = Registry::new();
    bind_key(&mut registry, "main", "ControlLeft_KeyS".to_string());
    assert_eq!(
        registry.handlers(S),
        Some(vec![press("pressControlLeft_KeyS", vec![KeybdKey::LControlKey])])
    );
    assert_eq!(registry.handlers(Key::Keybd(KeybdKey::LControlKey)), None);
    assert_eq!(update_binds(&registry).len(), 1);
}

#[test]
fn bind_key_three_key_chord() {
    let mut registry = Registry::new();
    bind_key(&mut registry, "main", "ControlLeft_ShiftLeft_KeyA".to_string());
    assert_eq!(
        registry.handlers(A),
        Some(vec![press(
            "pressControlLeft_ShiftLeft_KeyA",
            vec![KeybdKey::LControlKey, KeybdKey::LShiftKey]
        )])
    );
    assert_eq!(update_binds(&registry).len(), 1);
}

#[test]
fn bind_key_chord_on_a_mouse_button() {
    let mut registry = Registry::new();
    bind_key(&mut registry, "main", "Alt_LeftButton".to_string());
    assert_eq!(
        registry.handlers(LEFT),
        Some(vec![press("pressAlt_LeftButton", vec![KeybdKey::AltKey])])
    );
}

#[test]
fn bind_key_merges_with_what_the_key_has() {
    let mut registry = Registry::new();
    bind_key(&mut registry, "main", "KeyS".to_string());
    bind_key(&mut registry, "main", "ControlLeft_KeyS".to_string());
    bind_hold_key(&mut registry, "main", "KeyS".to_string());
    assert_eq!(
        registry.handlers(S),
        Some(vec![
            press("pressKeyS", vec![]),
            press("pressControlLeft_KeyS", vec![KeybdKey::LControlKey]),
            hold("holdKeyS", S),
        ])
    );
}

#[test]
fn names_of_four_segments_bind_nothing() {
    let mut registry = Registry::new();
    bind_key(&mut registry, "main", "ControlLeft_ShiftLeft_AltLeft_KeyA".to_string());
    bind_key(&mut registry, "main", "KeyA_KeyB_KeyC_KeyD_KeyE".to_string());
    assert_eq!(update_binds(&registry), vec![]);
}

#[test]
fn names_with_an_unknown_segment_bind_nothing() {
    let mut registry = Registry::new();
    for name in [
        "", "Nothing", "Nothing_KeyA", "ControlLeft_Nothing", "ControlLeft_Nothing_KeyA",
        "Nothing_ShiftLeft_KeyA", "KeyA_", "_KeyA", "LeftButton_KeyA", "keya",
    ] {
        bind_key(&mut registry, "main", name.to_string());
    }
    assert_eq!(update_binds(&registry), vec![]);
}

#[test]
fn unresolved_names_leave_earlier_bindings_alone() {
    let mut registry = Registry::new();
    bind_key(&mut registry, "main", "KeyA".to_string());
    bind_key(&mut registry, "main", "Nothing_KeyA".to_string());
    bind_key(&mut registry, "main", "A_B_C_KeyA".to_string());
    bind_hold_key(&mut registry, "main", "Nothing".to_string());
    assert_eq!(
        update_binds(&registry),
        vec![Binding { key: A, handlers: vec![press("pressKeyA", vec![])] }]
    );
}

#[test]
fn bind_hold_key_keyboard_and_mouse() {
    let mut registry = Registry::new();
    bind_hold_key(&mut registry, "main", "KeyA".to_string());
    bind_hold_key(&mut registry, "main", "LeftButton".to_string());
    assert_eq!(registry.handlers(A), Some(vec![hold("holdKeyA", A)]));
    assert_eq!(registry.handlers(LEFT), Some(vec![hold("holdLeftButton", LEFT)]));
}

#[test]
fn bind_hold_key_does_not_read_chords() {
    let mut registry = Registry::new();
    bind_hold_key(&mut registry, "main", "ControlLeft_KeyS".to_string());
    bind_hold_key(&mut registry, "main", "".to_string());
    assert_eq!(update_binds(&registry), vec![]);
}

#[test]
fn snapshot_holds_every_key_once_mouse_first() {
    let mut registry = Registry::new();
    bind_key(&mut registry, "main", "KeyA".to_string());
    bind_key(&mut registry, "main", "LeftButton".to_string());
    bind_key(&mut registry, "main", "KeyS".to_string());
    bind_key(&mut registry, "main", "KeyA".to_string());
    bind_key(&mut registry, "main", "RightButton".to_string());
    let snapshot = update_binds(&registry);
    assert_eq!(
        snapshot,
        vec![
            Binding { key: LEFT, handlers: vec![press("pressLeftButton", vec![])] },
            Binding {
                key: Key::Mouse(MouseButton::RightButton),
                handlers: vec![press("pressRightButton", vec![])]
            },
            Binding {
                key: A,
                handlers: vec![press("pressKeyA", vec![]), press("pressKeyA", vec![])]
            },
            Binding { key: S, handlers: vec![press("pressKeyS", vec![])] },
        ]
    );
}

#[test]
fn snapshot_does_not_depend_on_the_order_of_registration() {
    let mut forward = Registry::new();
    let mut backward = Registry::new();
    let names = ["KeyS", "LeftButton", "KeyA", "X2Button", "Enter", "F12", "Backquote"];
    for name in names {
        bind_key(&mut forward, "main", name.to_string());
    }
    for name in names.iter().rev() {
        bind_key(&mut backward, "main", name.to_string());
    }
    let snapshot = update_binds(&forward);
    assert_eq!(snapshot, update_binds(&backward));
    assert_eq!(snapshot.len(), 7);
    let keys: Vec<Key> = snapshot.iter().map(|entry| entry.key).collect();
    assert_eq!(
        keys,
        vec![
            LEFT,
            Key::Mouse(MouseButton::X2Button),
            Key::Keybd(KeybdKey::BackquoteKey),
            A,
            S,
            Key::Keybd(KeybdKey::F12Key),
            Key::Keybd(KeybdKey::EnterKey),
        ]
    );
}

#[test]
fn snapshot_is_a_copy() {
    let mut registry = Registry::new();
    bind_key(&mut registry, "main", "KeyA".to_string());
    let before = update_binds(&registry);
    bind_key(&mut registry, "main", "KeyA".to_string());
    bind_key(&mut registry, "main", "KeyS".to_string());
    assert_eq!(before, vec![Binding { key: A, handlers: vec![press("pressKeyA", vec![])] }]);
    assert_eq!(update_binds(&registry).len(), 2);
}

#[test]
fn a_key_has_one_name_only() {
    let mut registry = Registry::new();
    bind_key(&mut registry, "main", "KeyV".to_string());
    bind_key(&mut registry, "main", "VKey".to_string());
    bind_hold_key(&mut registry, "main", "VKey".to_string());
    bind_key(&mut registry, "main", "ControlLeft_VKey".to_string());
    add_callback(&mut registry, "VKey", press("pressVKey", vec![]));
    assert_eq!(
        update_binds(&registry),
        vec![Binding {
            key: Key::Keybd(KeybdKey::VKey),
            handlers: vec![press("pressKeyV", vec![])]
        }]
    );
}

#[test]
fn every_binding_keeps_its_own_window() {
    let mut registry = Registry::new();
    bind_key(&mut registry, "first", "KeyA".to_string());
    bind_key(&mut registry, "second", "KeyA".to_string());
    bind_hold_key(&mut registry, "third", "KeyA".to_string());
    assert_eq!(
        registry.handlers(A),
        Some(vec![
            Handler::Press {
                window: "first".to_string(),
                event: "pressKeyA".to_string(),
                gates: vec![]
            },
            Handler::Press {
                window: "second".to_string(),
                event: "pressKeyA".to_string(),
                gates: vec![]
            },
            Handler::Hold { window: "third".to_string(), event: "holdKeyA".to_string(), key: A },
        ])
    );
}
