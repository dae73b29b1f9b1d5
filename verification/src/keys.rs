//! Key identifiers and the table that maps symbolic key names to
//! them.

use vstd::prelude::*;
use crate::text::{str_eq, segments, SEPARATOR};

verus! {

/// A key of the keyboard.
#[derive(Clone, Copy, Debug, PartialEq, Eq, Hash, Structural)]
pub enum KeybdKey {
    BackquoteKey,
    Numpad0Key,
    Numpad1Key,
    Numpad2Key,
    Numpad3Key,
    Numpad4Key,
    Numpad5Key,
    Numpad6Key,
    Numpad7Key,
    Numpad8Key,
    Numpad9Key,
    AddKey,
    EqualKey,
    MinusKey,
    SubtractKey,
    DivideKey,
    ShiftKey,
    LShiftKey,
    RShiftKey,
    ControlKey,
    LControlKey,
    RControlKey,
    AltKey,
    LAltKey,
    RAltKey,
    AKey,
    BKey,
    CKey,
    DKey,
    EKey,
    FKey,
    GKey,
    HKey,
    IKey,
    JKey,
    KKey,
    LKey,
    MKey,
    NKey,
    OKey,
    PKey,
    QKey,
    RKey,
    SKey,
    TKey,
    UKey,
    VKey,
    WKey,
    XKey,
    YKey,
    ZKey,
    F1Key,
    F2Key,
    F3Key,
    F4Key,
    F5Key,
    F6Key,
    F7Key,
    F8Key,
    F9Key,
    F10Key,
    F11Key,
    F12Key,
    CapsLockKey,
    CommaKey,
    PeriodKey,
    QuoteKey,
    SlashKey,
    BackslashKey,
    SemicolonKey,
    LBracketKey,
    RBracketKey,
    BackspaceKey,
    EnterKey,
    TabKey,
    EscapeKey,
    SpaceKey,
    LeftKey,
    UpKey,
    RightKey,
    DownKey,
    BrowserForwardKey,
    BrowserBackKey,
}

/// A button of the mouse.
#[derive(Clone, Copy, Debug, PartialEq, Eq, Hash, Structural)]
pub enum MouseButton {
    LeftButton,
    RightButton,
    MiddleButton,
    X1Button,
    X2Button,
}

/// A key identifier: what a binding is registered under and what synthetic
/// input presses and releases.
#[derive(Clone, Copy, Debug, PartialEq, Eq, Hash, Structural)]
pub enum Key {
    Keybd(KeybdKey),
    Mouse(MouseButton),
}

impl KeybdKey {
    /// The symbolic name of the key.
    pub open spec fn name(self) -> Seq<char> {
        match self {
            KeybdKey::BackquoteKey => "Backquote"@,
            KeybdKey::Numpad0Key => "Numpad0"@,
            KeybdKey::Numpad1Key => "Numpad1"@,
            KeybdKey::Numpad2Key => "Numpad2"@,
            KeybdKey::Numpad3Key => "Numpad3"@,
            KeybdKey::Numpad4Key => "Numpad4"@,
            KeybdKey::Numpad5Key => "Numpad5"@,
            KeybdKey::Numpad6Key => "Numpad6"@,
            KeybdKey::Numpad7Key => "Numpad7"@,
            KeybdKey::Numpad8Key => "Numpad8"@,
            KeybdKey::Numpad9Key => "Numpad9"@,
            KeybdKey::AddKey => "NumpadAdd"@,
            KeybdKey::EqualKey => "Equal"@,
            KeybdKey::MinusKey => "Minus"@,
            KeybdKey::SubtractKey => "NumpadSubtract"@,
            KeybdKey::DivideKey => "NumpadDivide"@,
            KeybdKey::ShiftKey => "Shift"@,
            KeybdKey::LShiftKey => "ShiftLeft"@,
            KeybdKey::RShiftKey => "ShiftRight"@,
            KeybdKey::ControlKey => "Control"@,
            KeybdKey::LControlKey => "ControlLeft"@,
            KeybdKey::RControlKey => "ControlRight"@,
            KeybdKey::AltKey => "Alt"@,
            KeybdKey::LAltKey => "AltLeft"@,
            KeybdKey::RAltKey => "AltRight"@,
            KeybdKey::AKey => "KeyA"@,
            KeybdKey::BKey => "KeyB"@,
            KeybdKey::CKey => "KeyC"@,
            KeybdKey::DKey => "KeyD"@,
            KeybdKey::EKey => "KeyE"@,
            KeybdKey::FKey => "KeyF"@,
            KeybdKey::GKey => "KeyG"@,
            KeybdKey::HKey => "KeyH"@,
            KeybdKey::IKey => "KeyI"@,
            KeybdKey::JKey => "KeyJ"@,
            KeybdKey::KKey => "KeyK"@,
            KeybdKey::LKey => "KeyL"@,
            KeybdKey::MKey => "KeyM"@,
            KeybdKey::NKey => "KeyN"@,
            KeybdKey::OKey => "KeyO"@,
            KeybdKey::PKey => "KeyP"@,
            KeybdKey::QKey => "KeyQ"@,
            KeybdKey::RKey => "KeyR"@,
            KeybdKey::SKey => "KeyS"@,
            KeybdKey::TKey => "KeyT"@,
            KeybdKey::UKey => "KeyU"@,
            KeybdKey::VKey => "KeyV"@,
            KeybdKey::WKey => "KeyW"@,
            KeybdKey::XKey => "KeyX"@,
            KeybdKey::YKey => "KeyY"@,
            KeybdKey::ZKey => "KeyZ"@,
            KeybdKey::F1Key => "F1"@,
            KeybdKey::F2Key => "F2"@,
            KeybdKey::F3Key => "F3"@,
            KeybdKey::F4Key => "F4"@,
            KeybdKey::F5Key => "F5"@,
            KeybdKey::F6Key => "F6"@,
            KeybdKey::F7Key => "F7"@,
            KeybdKey::F8Key => "F8"@,
            KeybdKey::F9Key => "F9"@,
            KeybdKey::F10Key => "F10"@,
            KeybdKey::F11Key => "F11"@,
            KeybdKey::F12Key => "F12"@,
            KeybdKey::CapsLockKey => "CapsLock"@,
            KeybdKey::CommaKey => "Comma"@,
            KeybdKey::PeriodKey => "Period"@,
            KeybdKey::QuoteKey => "Quote"@,
            KeybdKey::SlashKey => "Slash"@,
            KeybdKey::BackslashKey => "Backslash"@,
            KeybdKey::SemicolonKey => "Semicolon"@,
            KeybdKey::LBracketKey => "BracketLeft"@,
            KeybdKey::RBracketKey => "BracketRight"@,
            KeybdKey::BackspaceKey => "Backspace"@,
            KeybdKey::EnterKey => "Enter"@,
            KeybdKey::TabKey => "Tab"@,
            KeybdKey::EscapeKey => "Escape"@,
            KeybdKey::SpaceKey => "Space"@,
            KeybdKey::LeftKey => "ArrowLeft"@,
            KeybdKey::UpKey => "ArrowUp"@,
            KeybdKey::RightKey => "ArrowRight"@,
            KeybdKey::DownKey => "ArrowDown"@,
            KeybdKey::BrowserForwardKey => "BrowserForward"@,
            KeybdKey::BrowserBackKey => "BrowserBack"@,
        }
    }
}

impl MouseButton {
    /// The symbolic name of the button.
    pub open spec fn name(self) -> Seq<char> {
        match self {
            MouseButton::LeftButton => "LeftButton"@,
            MouseButton::RightButton => "RightButton"@,
            MouseButton::MiddleButton => "MiddleButton"@,
            MouseButton::X1Button => "X1Button"@,
            MouseButton::X2Button => "X2Button"@,
        }
    }
}

impl Key {
    /// The symbolic name of the key or button.
    pub open spec fn name(self) -> Seq<char> {
        match self {
            Key::Keybd(key) => key.name(),
            Key::Mouse(button) => button.name(),
        }
    }
}

impl KeybdKey {
    /// The number of the key: its place in the table, counted from 0.
    pub open spec fn spec_code(self) -> u64 {
        match self {
            KeybdKey::BackquoteKey => 0,
            KeybdKey::Numpad0Key => 1,
            KeybdKey::Numpad1Key => 2,
            KeybdKey::Numpad2Key => 3,
            KeybdKey::Numpad3Key => 4,
            KeybdKey::Numpad4Key => 5,
            KeybdKey::Numpad5Key => 6,
            KeybdKey::Numpad6Key => 7,
            KeybdKey::Numpad7Key => 8,
            KeybdKey::Numpad8Key => 9,
            KeybdKey::Numpad9Key => 10,
            KeybdKey::AddKey => 11,
            KeybdKey::EqualKey => 12,
            KeybdKey::MinusKey => 13,
            KeybdKey::SubtractKey => 14,
            KeybdKey::DivideKey => 15,
            KeybdKey::ShiftKey => 16,
            KeybdKey::LShiftKey => 17,
            KeybdKey::RShiftKey => 18,
            KeybdKey::ControlKey => 19,
            KeybdKey::LControlKey => 20,
            KeybdKey::RControlKey => 21,
            KeybdKey::AltKey => 22,
            KeybdKey::LAltKey => 23,
            KeybdKey::RAltKey => 24,
            KeybdKey::AKey => 25,
            KeybdKey::BKey => 26,
            KeybdKey::CKey => 27,
            KeybdKey::DKey => 28,
            KeybdKey::EKey => 29,
            KeybdKey::FKey => 30,
            KeybdKey::GKey => 31,
            KeybdKey::HKey => 32,
            KeybdKey::IKey => 33,
            KeybdKey::JKey => 34,
            KeybdKey::KKey => 35,
            KeybdKey::LKey => 36,
            KeybdKey::MKey => 37,
            KeybdKey::NKey => 38,
            KeybdKey::OKey => 39,
            KeybdKey::PKey => 40,
            KeybdKey::QKey => 41,
            KeybdKey::RKey => 42,
            KeybdKey::SKey => 43,
            KeybdKey::TKey => 44,
            KeybdKey::UKey => 45,
            KeybdKey::VKey => 46,
            KeybdKey::WKey => 47,
            KeybdKey::XKey => 48,
            KeybdKey::YKey => 49,
            KeybdKey::ZKey => 50,
            KeybdKey::F1Key => 51,
            KeybdKey::F2Key => 52,
            KeybdKey::F3Key => 53,
            KeybdKey::F4Key => 54,
            KeybdKey::F5Key => 55,
            KeybdKey::F6Key => 56,
            KeybdKey::F7Key => 57,
            KeybdKey::F8Key => 58,
            KeybdKey::F9Key => 59,
            KeybdKey::F10Key => 60,
            KeybdKey::F11Key => 61,
            KeybdKey::F12Key => 62,
            KeybdKey::CapsLockKey => 63,
            KeybdKey::CommaKey => 64,
            KeybdKey::PeriodKey => 65,
            KeybdKey::QuoteKey => 66,
            KeybdKey::SlashKey => 67,
            KeybdKey::BackslashKey => 68,
            KeybdKey::SemicolonKey => 69,
            KeybdKey::LBracketKey => 70,
            KeybdKey::RBracketKey => 71,
            KeybdKey::BackspaceKey => 72,
            KeybdKey::EnterKey => 73,
            KeybdKey::TabKey => 74,
            KeybdKey::EscapeKey => 75,
            KeybdKey::SpaceKey => 76,
            KeybdKey::LeftKey => 77,
            KeybdKey::UpKey => 78,
            KeybdKey::RightKey => 79,
            KeybdKey::DownKey => 80,
            KeybdKey::BrowserForwardKey => 81,
            KeybdKey::BrowserBackKey => 82,
        }
    }

    /// The number of the key: its place in the table, counted from 0.
    #[verifier::when_used_as_spec(spec_code)]
    pub fn code(self) -> (code: u64)
        ensures
            code == self.spec_code(),
    {
        match self {
            KeybdKey::BackquoteKey => 0,
            KeybdKey::Numpad0Key => 1,
            KeybdKey::Numpad1Key => 2,
            KeybdKey::Numpad2Key => 3,
            KeybdKey::Numpad3Key => 4,
            KeybdKey::Numpad4Key => 5,
            KeybdKey::Numpad5Key => 6,
            KeybdKey::Numpad6Key => 7,
            KeybdKey::Numpad7Key => 8,
            KeybdKey::Numpad8Key => 9,
            KeybdKey::Numpad9Key => 10,
            KeybdKey::AddKey => 11,
            KeybdKey::EqualKey => 12,
            KeybdKey::MinusKey => 13,
            KeybdKey::SubtractKey => 14,
            KeybdKey::DivideKey => 15,
            KeybdKey::ShiftKey => 16,
            KeybdKey::LShiftKey => 17,
            KeybdKey::RShiftKey => 18,
            KeybdKey::ControlKey => 19,
            KeybdKey::LControlKey => 20,
            KeybdKey::RControlKey => 21,
            KeybdKey::AltKey => 22,
            KeybdKey::LAltKey => 23,
            KeybdKey::RAltKey => 24,
            KeybdKey::AKey => 25,
            KeybdKey::BKey => 26,
            KeybdKey::CKey => 27,
            KeybdKey::DKey => 28,
            KeybdKey::EKey => 29,
            KeybdKey::FKey => 30,
            KeybdKey::GKey => 31,
            KeybdKey::HKey => 32,
            KeybdKey::IKey => 33,
            KeybdKey::JKey => 34,
            KeybdKey::KKey => 35,
            KeybdKey::LKey => 36,
            KeybdKey::MKey => 37,
            KeybdKey::NKey => 38,
            KeybdKey::OKey => 39,
            KeybdKey::PKey => 40,
            KeybdKey::QKey => 41,
            KeybdKey::RKey => 42,
            KeybdKey::SKey => 43,
            KeybdKey::TKey => 44,
            KeybdKey::UKey => 45,
            KeybdKey::VKey => 46,
            KeybdKey::WKey => 47,
            KeybdKey::XKey => 48,
            KeybdKey::YKey => 49,
            KeybdKey::ZKey => 50,
            KeybdKey::F1Key => 51,
            KeybdKey::F2Key => 52,
            KeybdKey::F3Key => 53,
            KeybdKey::F4Key => 54,
            KeybdKey::F5Key => 55,
            KeybdKey::F6Key => 56,
            KeybdKey::F7Key => 57,
            KeybdKey::F8Key => 58,
            KeybdKey::F9Key => 59,
            KeybdKey::F10Key => 60,
            KeybdKey::F11Key => 61,
            KeybdKey::F12Key => 62,
            KeybdKey::CapsLockKey => 63,
            KeybdKey::CommaKey => 64,
            KeybdKey::PeriodKey => 65,
            KeybdKey::QuoteKey => 66,
            KeybdKey::SlashKey => 67,
            KeybdKey::BackslashKey => 68,
            KeybdKey::SemicolonKey => 69,
            KeybdKey::LBracketKey => 70,
            KeybdKey::RBracketKey => 71,
            KeybdKey::BackspaceKey => 72,
            KeybdKey::EnterKey => 73,
            KeybdKey::TabKey => 74,
            KeybdKey::EscapeKey => 75,
            KeybdKey::SpaceKey => 76,
            KeybdKey::LeftKey => 77,
            KeybdKey::UpKey => 78,
            KeybdKey::RightKey => 79,
            KeybdKey::DownKey => 80,
            KeybdKey::BrowserForwardKey => 81,
            KeybdKey::BrowserBackKey => 82,
        }
    }
}

impl MouseButton {
    /// The number of the button: its place in the table, counted from 0.
    pub open spec fn spec_code(self) -> u64 {
        match self {
            MouseButton::LeftButton => 0,
            MouseButton::RightButton => 1,
            MouseButton::MiddleButton => 2,
            MouseButton::X1Button => 3,
            MouseButton::X2Button => 4,
        }
    }

    /// The number of the button: its place in the table, counted from 0.
    #[verifier::when_used_as_spec(spec_code)]
    pub fn code(self) -> (code: u64)
        ensures
            code == self.spec_code(),
    {
        match self {
            MouseButton::LeftButton => 0,
            MouseButton::RightButton => 1,
            MouseButton::MiddleButton => 2,
            MouseButton::X1Button => 3,
            MouseButton::X2Button => 4,
        }
    }
}

/// The number of keyboard keys.
pub const KEYBD_KEYS: u64 = 83;

/// The number of mouse buttons.
pub const MOUSE_BUTTONS: u64 = 5;

impl Key {
    /// The number of the key or button: the keyboard keys come first, in the
    /// order of their table, and the mouse buttons behind them.
    pub open spec fn spec_code(self) -> u64 {
        match self {
            Key::Keybd(key) => key.spec_code(),
            Key::Mouse(button) => (KEYBD_KEYS + button.spec_code()) as u64,
        }
    }

    /// The number of the key or button: the keyboard keys come first, in the
    /// order of their table, and the mouse buttons behind them.
    #[verifier::when_used_as_spec(spec_code)]
    pub fn code(self) -> (code: u64)
        ensures
            code == self.spec_code(),
    {
        match self {
            Key::Keybd(key) => key.code(),
            Key::Mouse(button) => KEYBD_KEYS + button.code(),
        }
    }
}

/// The numbers of the keyboard keys lie below [`KEYBD_KEYS`], those of the
/// mouse buttons from there up to [`KEYBD_KEYS`]` + `[`MOUSE_BUTTONS`].
pub proof fn lemma_code_in_range(key: Key)
    ensures
        key is Keybd ==> key.code() < KEYBD_KEYS,
        key is Mouse ==> KEYBD_KEYS <= key.code() < KEYBD_KEYS + MOUSE_BUTTONS,
{
}

/// Two keys with the same number are the same key.
pub proof fn lemma_code_tells_keys_apart(a: Key, b: Key)
    requires
        a.code() == b.code(),
    ensures
        a == b,
{
    lemma_code_in_range(a);
    lemma_code_in_range(b);
}

/// The keyboard key that a symbolic name stands for, if any.
pub open spec fn keybd_key_named(name: Seq<char>) -> Option<KeybdKey> {
    if name == "Backquote"@ {
        Some(KeybdKey::BackquoteKey)
    }     else if name == "Numpad0"@ {
        Some(KeybdKey::Numpad0Key)
    }     else if name == "Numpad1"@ {
        Some(KeybdKey::Numpad1Key)
    }     else if name == "Numpad2"@ {
        Some(KeybdKey::Numpad2Key)
    }     else if name == "Numpad3"@ {
        Some(KeybdKey::Numpad3Key)
    }     else if name == "Numpad4"@ {
        Some(KeybdKey::Numpad4Key)
    }     else if name == "Numpad5"@ {
        Some(KeybdKey::Numpad5Key)
    }     else if name == "Numpad6"@ {
        Some(KeybdKey::Numpad6Key)
    }     else if name == "Numpad7"@ {
        Some(KeybdKey::Numpad7Key)
    }     else if name == "Numpad8"@ {
        Some(KeybdKey::Numpad8Key)
    }     else if name == "Numpad9"@ {
        Some(KeybdKey::Numpad9Key)
    }     else if name == "NumpadAdd"@ {
        Some(KeybdKey::AddKey)
    }     else if name == "Equal"@ {
        Some(KeybdKey::EqualKey)
    }     else if name == "Minus"@ {
        Some(KeybdKey::MinusKey)
    }     else if name == "NumpadSubtract"@ {
        Some(KeybdKey::SubtractKey)
    }     else if name == "NumpadDivide"@ {
        Some(KeybdKey::DivideKey)
    }     else if name == "Shift"@ {
        Some(KeybdKey::ShiftKey)
    }     else if name == "ShiftLeft"@ {
        Some(KeybdKey::LShiftKey)
    }     else if name == "ShiftRight"@ {
        Some(KeybdKey::RShiftKey)
    }     else if name == "Control"@ {
        Some(KeybdKey::ControlKey)
    }     else if name == "ControlLeft"@ {
        Some(KeybdKey::LControlKey)
    }     else if name == "ControlRight"@ {
        Some(KeybdKey::RControlKey)
    }     else if name == "Alt"@ {
        Some(KeybdKey::AltKey)
    }     else if name == "AltLeft"@ {
        Some(KeybdKey::LAltKey)
    }     else if name == "AltRight"@ {
        Some(KeybdKey::RAltKey)
    }     else if name == "KeyA"@ {
        Some(KeybdKey::AKey)
    }     else if name == "KeyB"@ {
        Some(KeybdKey::BKey)
    }     else if name == "KeyC"@ {
        Some(KeybdKey::CKey)
    }     else if name == "KeyD"@ {
        Some(KeybdKey::DKey)
    }     else if name == "KeyE"@ {
        Some(KeybdKey::EKey)
    }     else if name == "KeyF"@ {
        Some(KeybdKey::FKey)
    }     else if name == "KeyG"@ {
        Some(KeybdKey::GKey)
    }     else if name == "KeyH"@ {
        Some(KeybdKey::HKey)
    }     else if name == "KeyI"@ {
        Some(KeybdKey::IKey)
    }     else if name == "KeyJ"@ {
        Some(KeybdKey::JKey)
    }     else if name == "KeyK"@ {
        Some(KeybdKey::KKey)
    }     else if name == "KeyL"@ {
        Some(KeybdKey::LKey)
    }     else if name == "KeyM"@ {
        Some(KeybdKey::MKey)
    }     else if name == "KeyN"@ {
        Some(KeybdKey::NKey)
    }     else if name == "KeyO"@ {
        Some(KeybdKey::OKey)
    }     else if name == "KeyP"@ {
        Some(KeybdKey::PKey)
    }     else if name == "KeyQ"@ {
        Some(KeybdKey::QKey)
    }     else if name == "KeyR"@ {
        Some(KeybdKey::RKey)
    }     else if name == "KeyS"@ {
        Some(KeybdKey::SKey)
    }     else if name == "KeyT"@ {
        Some(KeybdKey::TKey)
    }     else if name == "KeyU"@ {
        Some(KeybdKey::UKey)
    }     else if name == "KeyV"@ {
        Some(KeybdKey::VKey)
    }     else if name == "KeyW"@ {
        Some(KeybdKey::WKey)
    }     else if name == "KeyX"@ {
        Some(KeybdKey::XKey)
    }     else if name == "KeyY"@ {
        Some(KeybdKey::YKey)
    }     else if name == "KeyZ"@ {
        Some(KeybdKey::ZKey)
    }     else if name == "F1"@ {
        Some(KeybdKey::F1Key)
    }     else if name == "F2"@ {
        Some(KeybdKey::F2Key)
    }     else if name == "F3"@ {
        Some(KeybdKey::F3Key)
    }     else if name == "F4"@ {
        Some(KeybdKey::F4Key)
    }     else if name == "F5"@ {
        Some(KeybdKey::F5Key)
    }     else if name == "F6"@ {
        Some(KeybdKey::F6Key)
    }     else if name == "F7"@ {
        Some(KeybdKey::F7Key)
    }     else if name == "F8"@ {
        Some(KeybdKey::F8Key)
    }     else if name == "F9"@ {
        Some(KeybdKey::F9Key)
    }     else if name == "F10"@ {
        Some(KeybdKey::F10Key)
    }     else if name == "F11"@ {
        Some(KeybdKey::F11Key)
    }     else if name == "F12"@ {
        Some(KeybdKey::F12Key)
    }     else if name == "CapsLock"@ {
        Some(KeybdKey::CapsLockKey)
    }     else if name == "Comma"@ {
        Some(KeybdKey::CommaKey)
    }     else if name == "Period"@ {
        Some(KeybdKey::PeriodKey)
    }     else if name == "Quote"@ {
        Some(KeybdKey::QuoteKey)
    }     else if name == "Slash"@ {
        Some(KeybdKey::SlashKey)
    }     else if name == "Backslash"@ {
        Some(KeybdKey::BackslashKey)
    }     else if name == "Semicolon"@ {
        Some(KeybdKey::SemicolonKey)
    }     else if name == "BracketLeft"@ {
        Some(KeybdKey::LBracketKey)
    }     else if name == "BracketRight"@ {
        Some(KeybdKey::RBracketKey)
    }     else if name == "Backspace"@ {
        Some(KeybdKey::BackspaceKey)
    }     else if name == "Enter"@ {
        Some(KeybdKey::EnterKey)
    }     else if name == "Tab"@ {
        Some(KeybdKey::TabKey)
    }     else if name == "Escape"@ {
        Some(KeybdKey::EscapeKey)
    }     else if name == "Space"@ {
        Some(KeybdKey::SpaceKey)
    }     else if name == "ArrowLeft"@ {
        Some(KeybdKey::LeftKey)
    }     else if name == "ArrowUp"@ {
        Some(KeybdKey::UpKey)
    }     else if name == "ArrowRight"@ {
        Some(KeybdKey::RightKey)
    }     else if name == "ArrowDown"@ {
        Some(KeybdKey::DownKey)
    }     else if name == "BrowserForward"@ {
        Some(KeybdKey::BrowserForwardKey)
    }     else if name == "BrowserBack"@ {
        Some(KeybdKey::BrowserBackKey)
    } else {
        None
    }
}

/// The mouse button that a symbolic name stands for, if any.
pub open spec fn mouse_button_named(name: Seq<char>) -> Option<MouseButton> {
    if name == "LeftButton"@ {
        Some(MouseButton::LeftButton)
    }     else if name == "RightButton"@ {
        Some(MouseButton::RightButton)
    }     else if name == "MiddleButton"@ {
        Some(MouseButton::MiddleButton)
    }     else if name == "X1Button"@ {
        Some(MouseButton::X1Button)
    }     else if name == "X2Button"@ {
        Some(MouseButton::X2Button)
    } else {
        None
    }
}

/// The key identifier that a symbolic name stands for: a keyboard key if the
/// keyboard table knows the name, else a mouse button if the mouse table does.
pub open spec fn key_named(name: Seq<char>) -> Option<Key> {
    match keybd_key_named(name) {
        Some(key) => Some(Key::Keybd(key)),
        None => match mouse_button_named(name) {
            Some(button) => Some(Key::Mouse(button)),
            None => None,
        },
    }
}

/// Looks a symbolic name up in the keyboard table.
pub fn get_keybd_key(key: &str) -> (found: Option<KeybdKey>)
    ensures
        found == keybd_key_named(key@),
{
    if str_eq(key, "Backquote") {
        Some(KeybdKey::BackquoteKey)
    }     else if str_eq(key, "Numpad0") {
        Some(KeybdKey::Numpad0Key)
    }     else if str_eq(key, "Numpad1") {
        Some(KeybdKey::Numpad1Key)
    }     else if str_eq(key, "Numpad2") {
        Some(KeybdKey::Numpad2Key)
    }     else if str_eq(key, "Numpad3") {
        Some(KeybdKey::Numpad3Key)
    }     else if str_eq(key, "Numpad4") {
        Some(KeybdKey::Numpad4Key)
    }     else if str_eq(key, "Numpad5") {
        Some(KeybdKey::Numpad5Key)
    }     else if str_eq(key, "Numpad6") {
        Some(KeybdKey::Numpad6Key)
    }     else if str_eq(key, "Numpad7") {
        Some(KeybdKey::Numpad7Key)
    }     else if str_eq(key, "Numpad8") {
        Some(KeybdKey::Numpad8Key)
    }     else if str_eq(key, "Numpad9") {
        Some(KeybdKey::Numpad9Key)
    }     else if str_eq(key, "NumpadAdd") {
        Some(KeybdKey::AddKey)
    }     else if str_eq(key, "Equal") {
        Some(KeybdKey::EqualKey)
    }     else if str_eq(key, "Minus") {
        Some(KeybdKey::MinusKey)
    }     else if str_eq(key, "NumpadSubtract") {
        Some(KeybdKey::SubtractKey)
    }     else if str_eq(key, "NumpadDivide") {
        Some(KeybdKey::DivideKey)
    }     else if str_eq(key, "Shift") {
        Some(KeybdKey::ShiftKey)
    }     else if str_eq(key, "ShiftLeft") {
        Some(KeybdKey::LShiftKey)
    }     else if str_eq(key, "ShiftRight") {
        Some(KeybdKey::RShiftKey)
    }     else if str_eq(key, "Control") {
        Some(KeybdKey::ControlKey)
    }     else if str_eq(key, "ControlLeft") {
        Some(KeybdKey::LControlKey)
    }     else if str_eq(key, "ControlRight") {
        Some(KeybdKey::RControlKey)
    }     else if str_eq(key, "Alt") {
        Some(KeybdKey::AltKey)
    }     else if str_eq(key, "AltLeft") {
        Some(KeybdKey::LAltKey)
    }     else if str_eq(key, "AltRight") {
        Some(KeybdKey::RAltKey)
    }     else if str_eq(key, "KeyA") {
        Some(KeybdKey::AKey)
    }     else if str_eq(key, "KeyB") {
        Some(KeybdKey::BKey)
    }     else if str_eq(key, "KeyC") {
        Some(KeybdKey::CKey)
    }     else if str_eq(key, "KeyD") {
        Some(KeybdKey::DKey)
    }     else if str_eq(key, "KeyE") {
        Some(KeybdKey::EKey)
    }     else if str_eq(key, "KeyF") {
        Some(KeybdKey::FKey)
    }     else if str_eq(key, "KeyG") {
        Some(KeybdKey::GKey)
    }     else if str_eq(key, "KeyH") {
        Some(KeybdKey::HKey)
    }     else if str_eq(key, "KeyI") {
        Some(KeybdKey::IKey)
    }     else if str_eq(key, "KeyJ") {
        Some(KeybdKey::JKey)
    }     else if str_eq(key, "KeyK") {
        Some(KeybdKey::KKey)
    }     else if str_eq(key, "KeyL") {
        Some(KeybdKey::LKey)
    }     else if str_eq(key, "KeyM") {
        Some(KeybdKey::MKey)
    }     else if str_eq(key, "KeyN") {
        Some(KeybdKey::NKey)
    }     else if str_eq(key, "KeyO") {
        Some(KeybdKey::OKey)
    }     else if str_eq(key, "KeyP") {
        Some(KeybdKey::PKey)
    }     else if str_eq(key, "KeyQ") {
        Some(KeybdKey::QKey)
    }     else if str_eq(key, "KeyR") {
        Some(KeybdKey::RKey)
    }     else if str_eq(key, "KeyS") {
        Some(KeybdKey::SKey)
    }     else if str_eq(key, "KeyT") {
        Some(KeybdKey::TKey)
    }     else if str_eq(key, "KeyU") {
        Some(KeybdKey::UKey)
    }     else if str_eq(key, "KeyV") {
        Some(KeybdKey::VKey)
    }     else if str_eq(key, "KeyW") {
        Some(KeybdKey::WKey)
    }     else if str_eq(key, "KeyX") {
        Some(KeybdKey::XKey)
    }     else if str_eq(key, "KeyY") {
        Some(KeybdKey::YKey)
    }     else if str_eq(key, "KeyZ") {
        Some(KeybdKey::ZKey)
    }     else if str_eq(key, "F1") {
        Some(KeybdKey::F1Key)
    }     else if str_eq(key, "F2") {
        Some(KeybdKey::F2Key)
    }     else if str_eq(key, "F3") {
        Some(KeybdKey::F3Key)
    }     else if str_eq(key, "F4") {
        Some(KeybdKey::F4Key)
    }     else if str_eq(key, "F5") {
        Some(KeybdKey::F5Key)
    }     else if str_eq(key, "F6") {
        Some(KeybdKey::F6Key)
    }     else if str_eq(key, "F7") {
        Some(KeybdKey::F7Key)
    }     else if str_eq(key, "F8") {
        Some(KeybdKey::F8Key)
    }     else if str_eq(key, "F9") {
        Some(KeybdKey::F9Key)
    }     else if str_eq(key, "F10") {
        Some(KeybdKey::F10Key)
    }     else if str_eq(key, "F11") {
        Some(KeybdKey::F11Key)
    }     else if str_eq(key, "F12") {
        Some(KeybdKey::F12Key)
    }     else if str_eq(key, "CapsLock") {
        Some(KeybdKey::CapsLockKey)
    }     else if str_eq(key, "Comma") {
        Some(KeybdKey::CommaKey)
    }     else if str_eq(key, "Period") {
        Some(KeybdKey::PeriodKey)
    }     else if str_eq(key, "Quote") {
        Some(KeybdKey::QuoteKey)
    }     else if str_eq(key, "Slash") {
        Some(KeybdKey::SlashKey)
    }     else if str_eq(key, "Backslash") {
        Some(KeybdKey::BackslashKey)
    }     else if str_eq(key, "Semicolon") {
        Some(KeybdKey::SemicolonKey)
    }     else if str_eq(key, "BracketLeft") {
        Some(KeybdKey::LBracketKey)
    }     else if str_eq(key, "BracketRight") {
        Some(KeybdKey::RBracketKey)
    }     else if str_eq(key, "Backspace") {
        Some(KeybdKey::BackspaceKey)
    }     else if str_eq(key, "Enter") {
        Some(KeybdKey::EnterKey)
    }     else if str_eq(key, "Tab") {
        Some(KeybdKey::TabKey)
    }     else if str_eq(key, "Escape") {
        Some(KeybdKey::EscapeKey)
    }     else if str_eq(key, "Space") {
        Some(KeybdKey::SpaceKey)
    }     else if str_eq(key, "ArrowLeft") {
        Some(KeybdKey::LeftKey)
    }     else if str_eq(key, "ArrowUp") {
        Some(KeybdKey::UpKey)
    }     else if str_eq(key, "ArrowRight") {
        Some(KeybdKey::RightKey)
    }     else if str_eq(key, "ArrowDown") {
        Some(KeybdKey::DownKey)
    }     else if str_eq(key, "BrowserForward") {
        Some(KeybdKey::BrowserForwardKey)
    }     else if str_eq(key, "BrowserBack") {
        Some(KeybdKey::BrowserBackKey)
    } else {
        None
    }
}

/// Looks a symbolic name up in the mouse table.
pub fn get_mouse_key(key: &str) -> (found: Option<MouseButton>)
    ensures
        found == mouse_button_named(key@),
{
    if str_eq(key, "LeftButton") {
        Some(MouseButton::LeftButton)
    }     else if str_eq(key, "RightButton") {
        Some(MouseButton::RightButton)
    }     else if str_eq(key, "MiddleButton") {
        Some(MouseButton::MiddleButton)
    }     else if str_eq(key, "X1Button") {
        Some(MouseButton::X1Button)
    }     else if str_eq(key, "X2Button") {
        Some(MouseButton::X2Button)
    } else {
        None
    }
}

/// Looks a symbolic name up in the keyboard table and then in the mouse table.
pub fn get_key(name: &str) -> (found: Option<Key>)
    ensures
        found == key_named(name@),
{
    match get_keybd_key(name) {
        Some(key) => Some(Key::Keybd(key)),
        None => match get_mouse_key(name) {
            Some(button) => Some(Key::Mouse(button)),
            None => None,
        },
    }
}

/// The shape of the names: every key and every button is found under its own
/// name and in its own table only, and no name holds a separator.
proof fn lemma_name_shape(key: Key)
    ensures
        match key {
            Key::Keybd(key) => keybd_key_named(key.name()) == Some(key) && mouse_button_named(
                key.name(),
            ) is None,
            Key::Mouse(button) => mouse_button_named(button.name()) == Some(button)
                && keybd_key_named(button.name()) is None,
        },
        forall|i: int| 0 <= i < key.name().len() ==> key.name()[i] != SEPARATOR,
{
    reveal_strlit("Backquote");
    reveal_strlit("Numpad0");
    reveal_strlit("Numpad1");
    reveal_strlit("Numpad2");
    reveal_strlit("Numpad3");
    reveal_strlit("Numpad4");
    reveal_strlit("Numpad5");
    reveal_strlit("Numpad6");
    reveal_strlit("Numpad7");
    reveal_strlit("Numpad8");
    reveal_strlit("Numpad9");
    reveal_strlit("NumpadAdd");
    reveal_strlit("Equal");
    reveal_strlit("Minus");
    reveal_strlit("NumpadSubtract");
    reveal_strlit("NumpadDivide");
    reveal_strlit("Shift");
    reveal_strlit("ShiftLeft");
    reveal_strlit("ShiftRight");
    reveal_strlit("Control");
    reveal_strlit("ControlLeft");
    reveal_strlit("ControlRight");
    reveal_strlit("Alt");
    reveal_strlit("AltLeft");
    reveal_strlit("AltRight");
    reveal_strlit("KeyA");
    reveal_strlit("KeyB");
    reveal_strlit("KeyC");
    reveal_strlit("KeyD");
    reveal_strlit("KeyE");
    reveal_strlit("KeyF");
    reveal_strlit("KeyG");
    reveal_strlit("KeyH");
    reveal_strlit("KeyI");
    reveal_strlit("KeyJ");
    reveal_strlit("KeyK");
    reveal_strlit("KeyL");
    reveal_strlit("KeyM");
    reveal_strlit("KeyN");
    reveal_strlit("KeyO");
    reveal_strlit("KeyP");
    reveal_strlit("KeyQ");
    reveal_strlit("KeyR");
    reveal_strlit("KeyS");
    reveal_strlit("KeyT");
    reveal_strlit("KeyU");
    reveal_strlit("KeyV");
    reveal_strlit("KeyW");
    reveal_strlit("KeyX");
    reveal_strlit("KeyY");
    reveal_strlit("KeyZ");
    reveal_strlit("F1");
    reveal_strlit("F2");
    reveal_strlit("F3");
    reveal_strlit("F4");
    reveal_strlit("F5");
    reveal_strlit("F6");
    reveal_strlit("F7");
    reveal_strlit("F8");
    reveal_strlit("F9");
    reveal_strlit("F10");
    reveal_strlit("F11");
    reveal_strlit("F12");
    reveal_strlit("CapsLock");
    reveal_strlit("Comma");
    reveal_strlit("Period");
    reveal_strlit("Quote");
    reveal_strlit("Slash");
    reveal_strlit("Backslash");
    reveal_strlit("Semicolon");
    reveal_strlit("BracketLeft");
    reveal_strlit("BracketRight");
    reveal_strlit("Backspace");
    reveal_strlit("Enter");
    reveal_strlit("Tab");
    reveal_strlit("Escape");
    reveal_strlit("Space");
    reveal_strlit("ArrowLeft");
    reveal_strlit("ArrowUp");
    reveal_strlit("ArrowRight");
    reveal_strlit("ArrowDown");
    reveal_strlit("BrowserForward");
    reveal_strlit("BrowserBack");
    reveal_strlit("LeftButton");
    reveal_strlit("RightButton");
    reveal_strlit("MiddleButton");
    reveal_strlit("X1Button");
    reveal_strlit("X2Button");
    // Naming the characters of the name lets the solver compare it, position
    // by position, with every name of the two tables.
    let name = key.name();
    let spelled = (
        name.len(),
        [name[0], name[1], name[2], name[3], name[4], name[5], name[6]],
        [name[7], name[8], name[9], name[10], name[11], name[12], name[13]],
    );
}

/// Every keyboard key is found under its own name, so no two keys share a
/// name.
pub proof fn lemma_keybd_key_found_by_name(key: KeybdKey)
    ensures
        keybd_key_named(key.name()) == Some(key),
{
    lemma_name_shape(Key::Keybd(key));
}

/// The keyboard table gives a key for its own name and for no other.
pub proof fn lemma_keybd_name_of_found_key(name: Seq<char>, key: KeybdKey)
    ensures
        keybd_key_named(name) == Some(key) <==> name == key.name(),
{
    lemma_name_shape(Key::Keybd(key));
}

/// Two different names that the keyboard table knows stand for two different
/// keys.
pub proof fn lemma_keybd_names_tell_keys_apart(a: Seq<char>, b: Seq<char>)
    requires
        a != b,
        keybd_key_named(a) is Some,
        keybd_key_named(b) is Some,
    ensures
        keybd_key_named(a) != keybd_key_named(b),
{
    lemma_keybd_name_of_found_key(a, keybd_key_named(a)->0);
    lemma_keybd_name_of_found_key(b, keybd_key_named(a)->0);
}

/// Every mouse button is found under its own name, so no two buttons share a
/// name.
pub proof fn lemma_mouse_button_found_by_name(button: MouseButton)
    ensures
        mouse_button_named(button.name()) == Some(button),
{
    lemma_name_shape(Key::Mouse(button));
}

/// The mouse table gives a button for its own name and for no other.
pub proof fn lemma_mouse_name_of_found_button(name: Seq<char>, button: MouseButton)
    ensures
        mouse_button_named(name) == Some(button) <==> name == button.name(),
{
    lemma_name_shape(Key::Mouse(button));
}

/// Two different names that the mouse table knows stand for two different
/// buttons.
pub proof fn lemma_mouse_names_tell_buttons_apart(a: Seq<char>, b: Seq<char>)
    requires
        a != b,
        mouse_button_named(a) is Some,
        mouse_button_named(b) is Some,
    ensures
        mouse_button_named(a) != mouse_button_named(b),
{
    lemma_mouse_name_of_found_button(a, mouse_button_named(a)->0);
    lemma_mouse_name_of_found_button(b, mouse_button_named(a)->0);
}

/// A name that is no key's and no button's name is found in neither table.
pub proof fn lemma_unknown_name_not_found(name: Seq<char>)
    requires
        forall|key: Key| name != key.name(),
    ensures
        keybd_key_named(name) is None,
        mouse_button_named(name) is None,
        key_named(name) is None,
{
    if keybd_key_named(name) is Some {
        let key = keybd_key_named(name)->0;
        lemma_keybd_name_of_found_key(name, key);
        assert(name == Key::Keybd(key).name());
    }
    if mouse_button_named(name) is Some {
        let button = mouse_button_named(name)->0;
        lemma_mouse_name_of_found_button(name, button);
        assert(name == Key::Mouse(button).name());
    }
}

/// No name is known to both tables.
pub proof fn lemma_tables_share_no_name(name: Seq<char>)
    ensures
        !(keybd_key_named(name) is Some && mouse_button_named(name) is Some),
{
    if keybd_key_named(name) is Some {
        let key = keybd_key_named(name)->0;
        lemma_keybd_name_of_found_key(name, key);
        lemma_name_shape(Key::Keybd(key));
    }
}

/// Every key and every button is found under its own name, and a name gives
/// a key or a button only where it is that one's name.
pub proof fn lemma_key_found_by_name(key: Key)
    ensures
        key_named(key.name()) == Some(key),
        forall|name: Seq<char>| key_named(name) == Some(key) ==> name == key.name(),
{
    lemma_name_shape(key);
    assert forall|name: Seq<char>| key_named(name) == Some(key) implies name == key.name() by {
        match key {
            Key::Keybd(found) => {
                lemma_keybd_name_of_found_key(name, found);
            },
            Key::Mouse(found) => {
                lemma_mouse_name_of_found_button(name, found);
            },
        }
    }
}

/// A name that either table knows holds no separator, so it is a single
/// segment.
pub proof fn lemma_known_name_is_one_segment(name: Seq<char>)
    requires
        key_named(name) is Some,
    ensures
        forall|i: int| 0 <= i < name.len() ==> name[i] != SEPARATOR,
        segments(name) == seq![name],
{
    let key = key_named(name)->0;
    lemma_key_found_by_name(key);
    lemma_name_shape(key);
    crate::text::lemma_segments_of_plain_name(name);
}

} // verus!
