//! Keyboard and mouse bindings, and their stored text form.

use vstd::prelude::*;
use crate::text::{chars_of, string_from_chars};

verus! {

/// A keyboard key that a binding can use. Every key with a stored name has a
/// variant of its own; `Unnamed` stands for any other key of the keyboard.
#[derive(Clone, Copy, Debug, PartialEq, Eq, Structural)]
pub enum KeyCode {
    Backquote,
    Backslash,
    BracketLeft,
    BracketRight,
    Comma,
    Digit0,
    Digit1,
    Digit2,
    Digit3,
    Digit4,
    Digit5,
    Digit6,
    Digit7,
    Digit8,
    Digit9,
    Equal,
    KeyA,
    KeyB,
    KeyC,
    KeyD,
    KeyE,
    KeyF,
    KeyG,
    KeyH,
    KeyI,
    KeyJ,
    KeyK,
    KeyL,
    KeyM,
    KeyN,
    KeyO,
    KeyP,
    KeyQ,
    KeyR,
    KeyS,
    KeyT,
    KeyU,
    KeyV,
    KeyW,
    KeyX,
    KeyY,
    KeyZ,
    Minus,
    Period,
    Quote,
    Semicolon,
    Slash,
    AltLeft,
    AltRight,
    Backspace,
    CapsLock,
    ControlLeft,
    ControlRight,
    Enter,
    SuperLeft,
    SuperRight,
    ShiftLeft,
    ShiftRight,
    Space,
    Tab,
    Delete,
    End,
    Home,
    Insert,
    PageDown,
    PageUp,
    ArrowDown,
    ArrowLeft,
    ArrowRight,
    ArrowUp,
    Numpad0,
    Numpad1,
    Numpad2,
    Numpad3,
    Numpad4,
    Numpad5,
    Numpad6,
    Numpad7,
    Numpad8,
    Numpad9,
    NumpadAdd,
    NumpadDecimal,
    NumpadDivide,
    NumpadEnter,
    NumpadMultiply,
    NumpadSubtract,
    Escape,
    PrintScreen,
    ScrollLock,
    Pause,
    F1,
    F2,
    F3,
    F4,
    F5,
    F6,
    F7,
    F8,
    F9,
    F10,
    F11,
    F12,
    F13,
    F14,
    F15,
    F16,
    F17,
    F18,
    F19,
    F20,
    F21,
    F22,
    F23,
    F24,
    Unnamed,
}

/// The stored name of a key: its variant name, or none for `Unnamed`.
pub open spec fn key_name(key: KeyCode) -> Option<Seq<char>> {
    match key {
        KeyCode::Backquote => Some(seq!['B', 'a', 'c', 'k', 'q', 'u', 'o', 't', 'e']),
        KeyCode::Backslash => Some(seq!['B', 'a', 'c', 'k', 's', 'l', 'a', 's', 'h']),
        KeyCode::BracketLeft => Some(seq!['B', 'r', 'a', 'c', 'k', 'e', 't', 'L', 'e', 'f', 't']),
        KeyCode::BracketRight => Some(seq!['B', 'r', 'a', 'c', 'k', 'e', 't', 'R', 'i', 'g', 'h', 't']),
        KeyCode::Comma => Some(seq!['C', 'o', 'm', 'm', 'a']),
        KeyCode::Digit0 => Some(seq!['D', 'i', 'g', 'i', 't', '0']),
        KeyCode::Digit1 => Some(seq!['D', 'i', 'g', 'i', 't', '1']),
        KeyCode::Digit2 => Some(seq!['D', 'i', 'g', 'i', 't', '2']),
        KeyCode::Digit3 => Some(seq!['D', 'i', 'g', 'i', 't', '3']),
        KeyCode::Digit4 => Some(seq!['D', 'i', 'g', 'i', 't', '4']),
        KeyCode::Digit5 => Some(seq!['D', 'i', 'g', 'i', 't', '5']),
        KeyCode::Digit6 => Some(seq!['D', 'i', 'g', 'i', 't', '6']),
        KeyCode::Digit7 => Some(seq!['D', 'i', 'g', 'i', 't', '7']),
        KeyCode::Digit8 => Some(seq!['D', 'i', 'g', 'i', 't', '8']),
        KeyCode::Digit9 => Some(seq!['D', 'i', 'g', 'i', 't', '9']),
        KeyCode::Equal => Some(seq!['E', 'q', 'u', 'a', 'l']),
        KeyCode::KeyA => Some(seq!['K', 'e', 'y', 'A']),
        KeyCode::KeyB => Some(seq!['K', 'e', 'y', 'B']),
        KeyCode::KeyC => Some(seq!['K', 'e', 'y', 'C']),
        KeyCode::KeyD => Some(seq!['K', 'e', 'y', 'D']),
        KeyCode::KeyE => Some(seq!['K', 'e', 'y', 'E']),
        KeyCode::KeyF => Some(seq!['K', 'e', 'y', 'F']),
        KeyCode::KeyG => Some(seq!['K', 'e', 'y', 'G']),
        KeyCode::KeyH => Some(seq!['K', 'e', 'y', 'H']),
        KeyCode::KeyI => Some(seq!['K', 'e', 'y', 'I']),
        KeyCode::KeyJ => Some(seq!['K', 'e', 'y', 'J']),
        KeyCode::KeyK => Some(seq!['K', 'e', 'y', 'K']),
        KeyCode::KeyL => Some(seq!['K', 'e', 'y', 'L']),
        KeyCode::KeyM => Some(seq!['K', 'e', 'y', 'M']),
        KeyCode::KeyN => Some(seq!['K', 'e', 'y', 'N']),
        KeyCode::KeyO => Some(seq!['K', 'e', 'y', 'O']),
        KeyCode::KeyP => Some(seq!['K', 'e', 'y', 'P']),
        KeyCode::KeyQ => Some(seq!['K', 'e', 'y', 'Q']),
        KeyCode::KeyR => Some(seq!['K', 'e', 'y', 'R']),
        KeyCode::KeyS => Some(seq!['K', 'e', 'y', 'S']),
        KeyCode::KeyT => Some(seq!['K', 'e', 'y', 'T']),
        KeyCode::KeyU => Some(seq!['K', 'e', 'y', 'U']),
        KeyCode::KeyV => Some(seq!['K', 'e', 'y', 'V']),
        KeyCode::KeyW => Some(seq!['K', 'e', 'y', 'W']),
        KeyCode::KeyX => Some(seq!['K', 'e', 'y', 'X']),
        KeyCode::KeyY => Some(seq!['K', 'e', 'y', 'Y']),
        KeyCode::KeyZ => Some(seq!['K', 'e', 'y', 'Z']),
        KeyCode::Minus => Some(seq!['M', 'i', 'n', 'u', 's']),
        KeyCode::Period => Some(seq!['P', 'e', 'r', 'i', 'o', 'd']),
        KeyCode::Quote => Some(seq!['Q', 'u', 'o', 't', 'e']),
        KeyCode::Semicolon => Some(seq!['S', 'e', 'm', 'i', 'c', 'o', 'l', 'o', 'n']),
        KeyCode::Slash => Some(seq!['S', 'l', 'a', 's', 'h']),
        KeyCode::AltLeft => Some(seq!['A', 'l', 't', 'L', 'e', 'f', 't']),
        KeyCode::AltRight => Some(seq!['A', 'l', 't', 'R', 'i', 'g', 'h', 't']),
        KeyCode::Backspace => Some(seq!['B', 'a', 'c', 'k', 's', 'p', 'a', 'c', 'e']),
        KeyCode::CapsLock => Some(seq!['C', 'a', 'p', 's', 'L', 'o', 'c', 'k']),
        KeyCode::ControlLeft => Some(seq!['C', 'o', 'n', 't', 'r', 'o', 'l', 'L', 'e', 'f', 't']),
        KeyCode::ControlRight => Some(seq!['C', 'o', 'n', 't', 'r', 'o', 'l', 'R', 'i', 'g', 'h', 't']),
        KeyCode::Enter => Some(seq!['E', 'n', 't', 'e', 'r']),
        KeyCode::SuperLeft => Some(seq!['S', 'u', 'p', 'e', 'r', 'L', 'e', 'f', 't']),
        KeyCode::SuperRight => Some(seq!['S', 'u', 'p', 'e', 'r', 'R', 'i', 'g', 'h', 't']),
        KeyCode::ShiftLeft => Some(seq!['S', 'h', 'i', 'f', 't', 'L', 'e', 'f', 't']),
        KeyCode::ShiftRight => Some(seq!['S', 'h', 'i', 'f', 't', 'R', 'i', 'g', 'h', 't']),
        KeyCode::Space => Some(seq!['S', 'p', 'a', 'c', 'e']),
        KeyCode::Tab => Some(seq!['T', 'a', 'b']),
        KeyCode::Delete => Some(seq!['D', 'e', 'l', 'e', 't', 'e']),
        KeyCode::End => Some(seq!['E', 'n', 'd']),
        KeyCode::Home => Some(seq!['H', 'o', 'm', 'e']),
        KeyCode::Insert => Some(seq!['I', 'n', 's', 'e', 'r', 't']),
        KeyCode::PageDown => Some(seq!['P', 'a', 'g', 'e', 'D', 'o', 'w', 'n']),
        KeyCode::PageUp => Some(seq!['P', 'a', 'g', 'e', 'U', 'p']),
        KeyCode::ArrowDown => Some(seq!['A', 'r', 'r', 'o', 'w', 'D', 'o', 'w', 'n']),
        KeyCode::ArrowLeft => Some(seq!['A', 'r', 'r', 'o', 'w', 'L', 'e', 'f', 't']),
        KeyCode::ArrowRight => Some(seq!['A', 'r', 'r', 'o', 'w', 'R', 'i', 'g', 'h', 't']),
        KeyCode::ArrowUp => Some(seq!['A', 'r', 'r', 'o', 'w', 'U', 'p']),
        KeyCode::Numpad0 => Some(seq!['N', 'u', 'm', 'p', 'a', 'd', '0']),
        KeyCode::Numpad1 => Some(seq!['N', 'u', 'm', 'p', 'a', 'd', '1']),
        KeyCode::Numpad2 => Some(seq!['N', 'u', 'm', 'p', 'a', 'd', '2']),
        KeyCode::Numpad3 => Some(seq!['N', 'u', 'm', 'p', 'a', 'd', '3']),
        KeyCode::Numpad4 => Some(seq!['N', 'u', 'm', 'p', 'a', 'd', '4']),
        KeyCode::Numpad5 => Some(seq!['N', 'u', 'm', 'p', 'a', 'd', '5']),
        KeyCode::Numpad6 => Some(seq!['N', 'u', 'm', 'p', 'a', 'd', '6']),
        KeyCode::Numpad7 => Some(seq!['N', 'u', 'm', 'p', 'a', 'd', '7']),
        KeyCode::Numpad8 => Some(seq!['N', 'u', 'm', 'p', 'a', 'd', '8']),
        KeyCode::Numpad9 => Some(seq!['N', 'u', 'm', 'p', 'a', 'd', '9']),
        KeyCode::NumpadAdd => Some(seq!['N', 'u', 'm', 'p', 'a', 'd', 'A', 'd', 'd']),
        KeyCode::NumpadDecimal => Some(seq!['N', 'u', 'm', 'p', 'a', 'd', 'D', 'e', 'c', 'i', 'm', 'a', 'l']),
        KeyCode::NumpadDivide => Some(seq!['N', 'u', 'm', 'p', 'a', 'd', 'D', 'i', 'v', 'i', 'd', 'e']),
        KeyCode::NumpadEnter => Some(seq!['N', 'u', 'm', 'p', 'a', 'd', 'E', 'n', 't', 'e', 'r']),
        KeyCode::NumpadMultiply => Some(seq!['N', 'u', 'm', 'p', 'a', 'd', 'M', 'u', 'l', 't', 'i', 'p', 'l', 'y']),
        KeyCode::NumpadSubtract => Some(seq!['N', 'u', 'm', 'p', 'a', 'd', 'S', 'u', 'b', 't', 'r', 'a', 'c', 't']),
        KeyCode::Escape => Some(seq!['E', 's', 'c', 'a', 'p', 'e']),
        KeyCode::PrintScreen => Some(seq!['P', 'r', 'i', 'n', 't', 'S', 'c', 'r', 'e', 'e', 'n']),
        KeyCode::ScrollLock => Some(seq!['S', 'c', 'r', 'o', 'l', 'l', 'L', 'o', 'c', 'k']),
        KeyCode::Pause => Some(seq!['P', 'a', 'u', 's', 'e']),
        KeyCode::F1 => Some(seq!['F', '1']),
        KeyCode::F2 => Some(seq!['F', '2']),
        KeyCode::F3 => Some(seq!['F', '3']),
        KeyCode::F4 => Some(seq!['F', '4']),
        KeyCode::F5 => Some(seq!['F', '5']),
        KeyCode::F6 => Some(seq!['F', '6']),
        KeyCode::F7 => Some(seq!['F', '7']),
        KeyCode::F8 => Some(seq!['F', '8']),
        KeyCode::F9 => Some(seq!['F', '9']),
        KeyCode::F10 => Some(seq!['F', '1', '0']),
        KeyCode::F11 => Some(seq!['F', '1', '1']),
        KeyCode::F12 => Some(seq!['F', '1', '2']),
        KeyCode::F13 => Some(seq!['F', '1', '3']),
        KeyCode::F14 => Some(seq!['F', '1', '4']),
        KeyCode::F15 => Some(seq!['F', '1', '5']),
        KeyCode::F16 => Some(seq!['F', '1', '6']),
        KeyCode::F17 => Some(seq!['F', '1', '7']),
        KeyCode::F18 => Some(seq!['F', '1', '8']),
        KeyCode::F19 => Some(seq!['F', '1', '9']),
        KeyCode::F20 => Some(seq!['F', '2', '0']),
        KeyCode::F21 => Some(seq!['F', '2', '1']),
        KeyCode::F22 => Some(seq!['F', '2', '2']),
        KeyCode::F23 => Some(seq!['F', '2', '3']),
        KeyCode::F24 => Some(seq!['F', '2', '4']),
        KeyCode::Unnamed => None,
    }
}

/// The stored name of a key (`None` for a key that has no stored name).
pub fn key_code_name(key: KeyCode) -> (r: Option<&'static str>)
    ensures
        match r {
            Some(s) => key_name(key) == Some(s@),
            None => key_name(key) is None,
        },
{
    match key {
        KeyCode::Backquote => {
            proof { reveal_strlit("Backquote"); }
            assert("Backquote"@ =~= seq!['B', 'a', 'c', 'k', 'q', 'u', 'o', 't', 'e']);
            Some("Backquote")
        },
        KeyCode::Backslash => {
            proof { reveal_strlit("Backslash"); }
            assert("Backslash"@ =~= seq!['B', 'a', 'c', 'k', 's', 'l', 'a', 's', 'h']);
            Some("Backslash")
        },
        KeyCode::BracketLeft => {
            proof { reveal_strlit("BracketLeft"); }
            assert("BracketLeft"@ =~= seq!['B', 'r', 'a', 'c', 'k', 'e', 't', 'L', 'e', 'f', 't']);
            Some("BracketLeft")
        },
        KeyCode::BracketRight => {
            proof { reveal_strlit("BracketRight"); }
            assert("BracketRight"@ =~= seq!['B', 'r', 'a', 'c', 'k', 'e', 't', 'R', 'i', 'g', 'h', 't']);
            Some("BracketRight")
        },
        KeyCode::Comma => {
            proof { reveal_strlit("Comma"); }
            assert("Comma"@ =~= seq!['C', 'o', 'm', 'm', 'a']);
            Some("Comma")
        },
        KeyCode::Digit0 => {
            proof { reveal_strlit("Digit0"); }
            assert("Digit0"@ =~= seq!['D', 'i', 'g', 'i', 't', '0']);
            Some("Digit0")
        },
        KeyCode::Digit1 => {
            proof { reveal_strlit("Digit1"); }
            assert("Digit1"@ =~= seq!['D', 'i', 'g', 'i', 't', '1']);
            Some("Digit1")
        },
        KeyCode::Digit2 => {
            proof { reveal_strlit("Digit2"); }
            assert("Digit2"@ =~= seq!['D', 'i', 'g', 'i', 't', '2']);
            Some("Digit2")
        },
        KeyCode::Digit3 => {
            proof { reveal_strlit("Digit3"); }
            assert("Digit3"@ =~= seq!['D', 'i', 'g', 'i', 't', '3']);
            Some("Digit3")
        },
        KeyCode::Digit4 => {
            proof { reveal_strlit("Digit4"); }
            assert("Digit4"@ =~= seq!['D', 'i', 'g', 'i', 't', '4']);
            Some("Digit4")
        },
        KeyCode::Digit5 => {
            proof { reveal_strlit("Digit5"); }
            assert("Digit5"@ =~= seq!['D', 'i', 'g', 'i', 't', '5']);
            Some("Digit5")
        },
        KeyCode::Digit6 => {
            proof { reveal_strlit("Digit6"); }
            assert("Digit6"@ =~= seq!['D', 'i', 'g', 'i', 't', '6']);
            Some("Digit6")
        },
        KeyCode::Digit7 => {
            proof { reveal_strlit("Digit7"); }
            assert("Digit7"@ =~= seq!['D', 'i', 'g', 'i', 't', '7']);
            Some("Digit7")
        },
        KeyCode::Digit8 => {
            proof { reveal_strlit("Digit8"); }
            assert("Digit8"@ =~= seq!['D', 'i', 'g', 'i', 't', '8']);
            Some("Digit8")
        },
        KeyCode::Digit9 => {
            proof { reveal_strlit("Digit9"); }
            assert("Digit9"@ =~= seq!['D', 'i', 'g', 'i', 't', '9']);
            Some("Digit9")
        },
        KeyCode::Equal => {
            proof { reveal_strlit("Equal"); }
            assert("Equal"@ =~= seq!['E', 'q', 'u', 'a', 'l']);
            Some("Equal")
        },
        KeyCode::KeyA => {
            proof { reveal_strlit("KeyA"); }
            assert("KeyA"@ =~= seq!['K', 'e', 'y', 'A']);
            Some("KeyA")
        },
        KeyCode::KeyB => {
            proof { reveal_strlit("KeyB"); }
            assert("KeyB"@ =~= seq!['K', 'e', 'y', 'B']);
            Some("KeyB")
        },
        KeyCode::KeyC => {
            proof { reveal_strlit("KeyC"); }
            assert("KeyC"@ =~= seq!['K', 'e', 'y', 'C']);
            Some("KeyC")
        },
        KeyCode::KeyD => {
            proof { reveal_strlit("KeyD"); }
            assert("KeyD"@ =~= seq!['K', 'e', 'y', 'D']);
            Some("KeyD")
        },
        KeyCode::KeyE => {
            proof { reveal_strlit("KeyE"); }
            assert("KeyE"@ =~= seq!['K', 'e', 'y', 'E']);
            Some("KeyE")
        },
        KeyCode::KeyF => {
            proof { reveal_strlit("KeyF"); }
            assert("KeyF"@ =~= seq!['K', 'e', 'y', 'F']);
            Some("KeyF")
        },
        KeyCode::KeyG => {
            proof { reveal_strlit("KeyG"); }
            assert("KeyG"@ =~= seq!['K', 'e', 'y', 'G']);
            Some("KeyG")
        },
        KeyCode::KeyH => {
            proof { reveal_strlit("KeyH"); }
            assert("KeyH"@ =~= seq!['K', 'e', 'y', 'H']);
            Some("KeyH")
        },
        KeyCode::KeyI => {
            proof { reveal_strlit("KeyI"); }
            assert("KeyI"@ =~= seq!['K', 'e', 'y', 'I']);
            Some("KeyI")
        },
        KeyCode::KeyJ => {
            proof { reveal_strlit("KeyJ"); }
            assert("KeyJ"@ =~= seq!['K', 'e', 'y', 'J']);
            Some("KeyJ")
        },
        KeyCode::KeyK => {
            proof { reveal_strlit("KeyK"); }
            assert("KeyK"@ =~= seq!['K', 'e', 'y', 'K']);
            Some("KeyK")
        },
        KeyCode::KeyL => {
            proof { reveal_strlit("KeyL"); }
            assert("KeyL"@ =~= seq!['K', 'e', 'y', 'L']);
            Some("KeyL")
        },
        KeyCode::KeyM => {
            proof { reveal_strlit("KeyM"); }
            assert("KeyM"@ =~= seq!['K', 'e', 'y', 'M']);
            Some("KeyM")
        },
        KeyCode::KeyN => {
            proof { reveal_strlit("KeyN"); }
            assert("KeyN"@ =~= seq!['K', 'e', 'y', 'N']);
            Some("KeyN")
        },
        KeyCode::KeyO => {
            proof { reveal_strlit("KeyO"); }
            assert("KeyO"@ =~= seq!['K', 'e', 'y', 'O']);
            Some("KeyO")
        },
        KeyCode::KeyP => {
            proof { reveal_strlit("KeyP"); }
            assert("KeyP"@ =~= seq!['K', 'e', 'y', 'P']);
            Some("KeyP")
        },
        KeyCode::KeyQ => {
            proof { reveal_strlit("KeyQ"); }
            assert("KeyQ"@ =~= seq!['K', 'e', 'y', 'Q']);
            Some("KeyQ")
        },
        KeyCode::KeyR => {
            proof { reveal_strlit("KeyR"); }
            assert("KeyR"@ =~= seq!['K', 'e', 'y', 'R']);
            Some("KeyR")
        },
        KeyCode::KeyS => {
            proof { reveal_strlit("KeyS"); }
            assert("KeyS"@ =~= seq!['K', 'e', 'y', 'S']);
            Some("KeyS")
        },
        KeyCode::KeyT => {
            proof { reveal_strlit("KeyT"); }
            assert("KeyT"@ =~= seq!['K', 'e', 'y', 'T']);
            Some("KeyT")
        },
        KeyCode::KeyU => {
            proof { reveal_strlit("KeyU"); }
            assert("KeyU"@ =~= seq!['K', 'e', 'y', 'U']);
            Some("KeyU")
        },
        KeyCode::KeyV => {
            proof { reveal_strlit("KeyV"); }
            assert("KeyV"@ =~= seq!['K', 'e', 'y', 'V']);
            Some("KeyV")
        },
        KeyCode::KeyW => {
            proof { reveal_strlit("KeyW"); }
            assert("KeyW"@ =~= seq!['K', 'e', 'y', 'W']);
            Some("KeyW")
        },
        KeyCode::KeyX => {
            proof { reveal_strlit("KeyX"); }
            assert("KeyX"@ =~= seq!['K', 'e', 'y', 'X']);
            Some("KeyX")
        },
        KeyCode::KeyY => {
            proof { reveal_strlit("KeyY"); }
            assert("KeyY"@ =~= seq!['K', 'e', 'y', 'Y']);
            Some("KeyY")
        },
        KeyCode::KeyZ => {
            proof { reveal_strlit("KeyZ"); }
            assert("KeyZ"@ =~= seq!['K', 'e', 'y', 'Z']);
            Some("KeyZ")
        },
        KeyCode::Minus => {
            proof { reveal_strlit("Minus"); }
            assert("Minus"@ =~= seq!['M', 'i', 'n', 'u', 's']);
            Some("Minus")
        },
        KeyCode::Period => {
            proof { reveal_strlit("Period"); }
            assert("Period"@ =~= seq!['P', 'e', 'r', 'i', 'o', 'd']);
            Some("Period")
        },
        KeyCode::Quote => {
            proof { reveal_strlit("Quote"); }
            assert("Quote"@ =~= seq!['Q', 'u', 'o', 't', 'e']);
            Some("Quote")
        },
        KeyCode::Semicolon => {
            proof { reveal_strlit("Semicolon"); }
            assert("Semicolon"@ =~= seq!['S', 'e', 'm', 'i', 'c', 'o', 'l', 'o', 'n']);
            Some("Semicolon")
        },
        KeyCode::Slash => {
            proof { reveal_strlit("Slash"); }
            assert("Slash"@ =~= seq!['S', 'l', 'a', 's', 'h']);
            Some("Slash")
        },
        KeyCode::AltLeft => {
            proof { reveal_strlit("AltLeft"); }
            assert("AltLeft"@ =~= seq!['A', 'l', 't', 'L', 'e', 'f', 't']);
            Some("AltLeft")
        },
        KeyCode::AltRight => {
            proof { reveal_strlit("AltRight"); }
            assert("AltRight"@ =~= seq!['A', 'l', 't', 'R', 'i', 'g', 'h', 't']);
            Some("AltRight")
        },
        KeyCode::Backspace => {
            proof { reveal_strlit("Backspace"); }
            assert("Backspace"@ =~= seq!['B', 'a', 'c', 'k', 's', 'p', 'a', 'c', 'e']);
            Some("Backspace")
        },
        KeyCode::CapsLock => {
            proof { reveal_strlit("CapsLock"); }
            assert("CapsLock"@ =~= seq!['C', 'a', 'p', 's', 'L', 'o', 'c', 'k']);
            Some("CapsLock")
        },
        KeyCode::ControlLeft => {
            proof { reveal_strlit("ControlLeft"); }
            assert("ControlLeft"@ =~= seq!['C', 'o', 'n', 't', 'r', 'o', 'l', 'L', 'e', 'f', 't']);
            Some("ControlLeft")
        },
        KeyCode::ControlRight => {
            proof { reveal_strlit("ControlRight"); }
            assert("ControlRight"@ =~= seq!['C', 'o', 'n', 't', 'r', 'o', 'l', 'R', 'i', 'g', 'h', 't']);
            Some("ControlRight")
        },
        KeyCode::Enter => {
            proof { reveal_strlit("Enter"); }
            assert("Enter"@ =~= seq!['E', 'n', 't', 'e', 'r']);
            Some("Enter")
        },
        KeyCode::SuperLeft => {
            proof { reveal_strlit("SuperLeft"); }
            assert("SuperLeft"@ =~= seq!['S', 'u', 'p', 'e', 'r', 'L', 'e', 'f', 't']);
            Some("SuperLeft")
        },
        KeyCode::SuperRight => {
            proof { reveal_strlit("SuperRight"); }
            assert("SuperRight"@ =~= seq!['S', 'u', 'p', 'e', 'r', 'R', 'i', 'g', 'h', 't']);
            Some("SuperRight")
        },
        KeyCode::ShiftLeft => {
            proof { reveal_strlit("ShiftLeft"); }
            assert("ShiftLeft"@ =~= seq!['S', 'h', 'i', 'f', 't', 'L', 'e', 'f', 't']);
            Some("ShiftLeft")
        },
        KeyCode::ShiftRight => {
            proof { reveal_strlit("ShiftRight"); }
            assert("ShiftRight"@ =~= seq!['S', 'h', 'i', 'f', 't', 'R', 'i', 'g', 'h', 't']);
            Some("ShiftRight")
        },
        KeyCode::Space => {
            proof { reveal_strlit("Space"); }
            assert("Space"@ =~= seq!['S', 'p', 'a', 'c', 'e']);
            Some("Space")
        },
        KeyCode::Tab => {
            proof { reveal_strlit("Tab"); }
            assert("Tab"@ =~= seq!['T', 'a', 'b']);
            Some("Tab")
        },
        KeyCode::Delete => {
            proof { reveal_strlit("Delete"); }
            assert("Delete"@ =~= seq!['D', 'e', 'l', 'e', 't', 'e']);
            Some("Delete")
        },
        KeyCode::End => {
            proof { reveal_strlit("End"); }
            assert("End"@ =~= seq!['E', 'n', 'd']);
            Some("End")
        },
        KeyCode::Home => {
            proof { reveal_strlit("Home"); }
            assert("Home"@ =~= seq!['H', 'o', 'm', 'e']);
            Some("Home")
        },
        KeyCode::Insert => {
            proof { reveal_strlit("Insert"); }
            assert("Insert"@ =~= seq!['I', 'n', 's', 'e', 'r', 't']);
            Some("Insert")
        },
        KeyCode::PageDown => {
            proof { reveal_strlit("PageDown"); }
            assert("PageDown"@ =~= seq!['P', 'a', 'g', 'e', 'D', 'o', 'w', 'n']);
            Some("PageDown")
        },
        KeyCode::PageUp => {
            proof { reveal_strlit("PageUp"); }
            assert("PageUp"@ =~= seq!['P', 'a', 'g', 'e', 'U', 'p']);
            Some("PageUp")
        },
        KeyCode::ArrowDown => {
            proof { reveal_strlit("ArrowDown"); }
            assert("ArrowDown"@ =~= seq!['A', 'r', 'r', 'o', 'w', 'D', 'o', 'w', 'n']);
            Some("ArrowDown")
        },
        KeyCode::ArrowLeft => {
            proof { reveal_strlit("ArrowLeft"); }
            assert("ArrowLeft"@ =~= seq!['A', 'r', 'r', 'o', 'w', 'L', 'e', 'f', 't']);
            Some("ArrowLeft")
        },
        KeyCode::ArrowRight => {
            proof { reveal_strlit("ArrowRight"); }
            assert("ArrowRight"@ =~= seq!['A', 'r', 'r', 'o', 'w', 'R', 'i', 'g', 'h', 't']);
            Some("ArrowRight")
        },
        KeyCode::ArrowUp => {
            proof { reveal_strlit("ArrowUp"); }
            assert("ArrowUp"@ =~= seq!['A', 'r', 'r', 'o', 'w', 'U', 'p']);
            Some("ArrowUp")
        },
        KeyCode::Numpad0 => {
            proof { reveal_strlit("Numpad0"); }
            assert("Numpad0"@ =~= seq!['N', 'u', 'm', 'p', 'a', 'd', '0']);
            Some("Numpad0")
        },
        KeyCode::Numpad1 => {
            proof { reveal_strlit("Numpad1"); }
            assert("Numpad1"@ =~= seq!['N', 'u', 'm', 'p', 'a', 'd', '1']);
            Some("Numpad1")
        },
        KeyCode::Numpad2 => {
            proof { reveal_strlit("Numpad2"); }
            assert("Numpad2"@ =~= seq!['N', 'u', 'm', 'p', 'a', 'd', '2']);
            Some("Numpad2")
        },
        KeyCode::Numpad3 => {
            proof { reveal_strlit("Numpad3"); }
            assert("Numpad3"@ =~= seq!['N', 'u', 'm', 'p', 'a', 'd', '3']);
            Some("Numpad3")
        },
        KeyCode::Numpad4 => {
            proof { reveal_strlit("Numpad4"); }
            assert("Numpad4"@ =~= seq!['N', 'u', 'm', 'p', 'a', 'd', '4']);
            Some("Numpad4")
        },
        KeyCode::Numpad5 => {
            proof { reveal_strlit("Numpad5"); }
            assert("Numpad5"@ =~= seq!['N', 'u', 'm', 'p', 'a', 'd', '5']);
            Some("Numpad5")
        },
        KeyCode::Numpad6 => {
            proof { reveal_strlit("Numpad6"); }
            assert("Numpad6"@ =~= seq!['N', 'u', 'm', 'p', 'a', 'd', '6']);
            Some("Numpad6")
        },
        KeyCode::Numpad7 => {
            proof { reveal_strlit("Numpad7"); }
            assert("Numpad7"@ =~= seq!['N', 'u', 'm', 'p', 'a', 'd', '7']);
            Some("Numpad7")
        },
        KeyCode::Numpad8 => {
            proof { reveal_strlit("Numpad8"); }
            assert("Numpad8"@ =~= seq!['N', 'u', 'm', 'p', 'a', 'd', '8']);
            Some("Numpad8")
        },
        KeyCode::Numpad9 => {
            proof { reveal_strlit("Numpad9"); }
            assert("Numpad9"@ =~= seq!['N', 'u', 'm', 'p', 'a', 'd', '9']);
            Some("Numpad9")
        },
        KeyCode::NumpadAdd => {
            proof { reveal_strlit("NumpadAdd"); }
            assert("NumpadAdd"@ =~= seq!['N', 'u', 'm', 'p', 'a', 'd', 'A', 'd', 'd']);
            Some("NumpadAdd")
        },
        KeyCode::NumpadDecimal => {
            proof { reveal_strlit("NumpadDecimal"); }
            assert("NumpadDecimal"@ =~= seq!['N', 'u', 'm', 'p', 'a', 'd', 'D', 'e', 'c', 'i', 'm', 'a', 'l']);
            Some("NumpadDecimal")
        },
        KeyCode::NumpadDivide => {
            proof { reveal_strlit("NumpadDivide"); }
            assert("NumpadDivide"@ =~= seq!['N', 'u', 'm', 'p', 'a', 'd', 'D', 'i', 'v', 'i', 'd', 'e']);
            Some("NumpadDivide")
        },
        KeyCode::NumpadEnter => {
            proof { reveal_strlit("NumpadEnter"); }
            assert("NumpadEnter"@ =~= seq!['N', 'u', 'm', 'p', 'a', 'd', 'E', 'n', 't', 'e', 'r']);
            Some("NumpadEnter")
        },
        KeyCode::NumpadMultiply => {
            proof { reveal_strlit("NumpadMultiply"); }
            assert("NumpadMultiply"@ =~= seq!['N', 'u', 'm', 'p', 'a', 'd', 'M', 'u', 'l', 't', 'i', 'p', 'l', 'y']);
            Some("NumpadMultiply")
        },
        KeyCode::NumpadSubtract => {
            proof { reveal_strlit("NumpadSubtract"); }
            assert("NumpadSubtract"@ =~= seq!['N', 'u', 'm', 'p', 'a', 'd', 'S', 'u', 'b', 't', 'r', 'a', 'c', 't']);
            Some("NumpadSubtract")
        },
        KeyCode::Escape => {
            proof { reveal_strlit("Escape"); }
            assert("Escape"@ =~= seq!['E', 's', 'c', 'a', 'p', 'e']);
            Some("Escape")
        },
        KeyCode::PrintScreen => {
            proof { reveal_strlit("PrintScreen"); }
            assert("PrintScreen"@ =~= seq!['P', 'r', 'i', 'n', 't', 'S', 'c', 'r', 'e', 'e', 'n']);
            Some("PrintScreen")
        },
        KeyCode::ScrollLock => {
            proof { reveal_strlit("ScrollLock"); }
            assert("ScrollLock"@ =~= seq!['S', 'c', 'r', 'o', 'l', 'l', 'L', 'o', 'c', 'k']);
            Some("ScrollLock")
        },
        KeyCode::Pause => {
            proof { reveal_strlit("Pause"); }
            assert("Pause"@ =~= seq!['P', 'a', 'u', 's', 'e']);
            Some("Pause")
        },
        KeyCode::F1 => {
            proof { reveal_strlit("F1"); }
            assert("F1"@ =~= seq!['F', '1']);
            Some("F1")
        },
        KeyCode::F2 => {
            proof { reveal_strlit("F2"); }
            assert("F2"@ =~= seq!['F', '2']);
            Some("F2")
        },
        KeyCode::F3 => {
            proof { reveal_strlit("F3"); }
            assert("F3"@ =~= seq!['F', '3']);
            Some("F3")
        },
        KeyCode::F4 => {
            proof { reveal_strlit("F4"); }
            assert("F4"@ =~= seq!['F', '4']);
            Some("F4")
        },
        KeyCode::F5 => {
            proof { reveal_strlit("F5"); }
            assert("F5"@ =~= seq!['F', '5']);
            Some("F5")
        },
        KeyCode::F6 => {
            proof { reveal_strlit("F6"); }
            assert("F6"@ =~= seq!['F', '6']);
            Some("F6")
        },
        KeyCode::F7 => {
            proof { reveal_strlit("F7"); }
            assert("F7"@ =~= seq!['F', '7']);
            Some("F7")
        },
        KeyCode::F8 => {
            proof { reveal_strlit("F8"); }
            assert("F8"@ =~= seq!['F', '8']);
            Some("F8")
        },
        KeyCode::F9 => {
            proof { reveal_strlit("F9"); }
            assert("F9"@ =~= seq!['F', '9']);
            Some("F9")
        },
        KeyCode::F10 => {
            proof { reveal_strlit("F10"); }
            assert("F10"@ =~= seq!['F', '1', '0']);
            Some("F10")
        },
        KeyCode::F11 => {
            proof { reveal_strlit("F11"); }
            assert("F11"@ =~= seq!['F', '1', '1']);
            Some("F11")
        },
        KeyCode::F12 => {
            proof { reveal_strlit("F12"); }
            assert("F12"@ =~= seq!['F', '1', '2']);
            Some("F12")
        },
        KeyCode::F13 => {
            proof { reveal_strlit("F13"); }
            assert("F13"@ =~= seq!['F', '1', '3']);
            Some("F13")
        },
        KeyCode::F14 => {
            proof { reveal_strlit("F14"); }
            assert("F14"@ =~= seq!['F', '1', '4']);
            Some("F14")
        },
        KeyCode::F15 => {
            proof { reveal_strlit("F15"); }
            assert("F15"@ =~= seq!['F', '1', '5']);
            Some("F15")
        },
        KeyCode::F16 => {
            proof { reveal_strlit("F16"); }
            assert("F16"@ =~= seq!['F', '1', '6']);
            Some("F16")
        },
        KeyCode::F17 => {
            proof { reveal_strlit("F17"); }
            assert("F17"@ =~= seq!['F', '1', '7']);
            Some("F17")
        },
        KeyCode::F18 => {
            proof { reveal_strlit("F18"); }
            assert("F18"@ =~= seq!['F', '1', '8']);
            Some("F18")
        },
        KeyCode::F19 => {
            proof { reveal_strlit("F19"); }
            assert("F19"@ =~= seq!['F', '1', '9']);
            Some("F19")
        },
        KeyCode::F20 => {
            proof { reveal_strlit("F20"); }
            assert("F20"@ =~= seq!['F', '2', '0']);
            Some("F20")
        },
        KeyCode::F21 => {
            proof { reveal_strlit("F21"); }
            assert("F21"@ =~= seq!['F', '2', '1']);
            Some("F21")
        },
        KeyCode::F22 => {
            proof { reveal_strlit("F22"); }
            assert("F22"@ =~= seq!['F', '2', '2']);
            Some("F22")
        },
        KeyCode::F23 => {
            proof { reveal_strlit("F23"); }
            assert("F23"@ =~= seq!['F', '2', '3']);
            Some("F23")
        },
        KeyCode::F24 => {
            proof { reveal_strlit("F24"); }
            assert("F24"@ =~= seq!['F', '2', '4']);
            Some("F24")
        },
        KeyCode::Unnamed => None,
    }
}

/// The key named `s` if `s` is the stored name of the key that the shape of
/// `s` (its length, then distinguishing characters) singles out.
spec fn leaf_key(s: Seq<char>, key: KeyCode) -> Option<KeyCode> {
    if key_name(key) == Some(s) {
        Some(key)
    } else {
        None
    }
}

/// Looks a name up by its shape; only a key's own stored name finds it.
spec fn key_by_shape(s: Seq<char>) -> Option<KeyCode> {
    if s.len() == 2 {
        if s[1] == '1' {
            leaf_key(s, KeyCode::F1)
        } else if s[1] == '2' {
            leaf_key(s, KeyCode::F2)
        } else if s[1] == '3' {
            leaf_key(s, KeyCode::F3)
        } else if s[1] == '4' {
            leaf_key(s, KeyCode::F4)
        } else if s[1] == '5' {
            leaf_key(s, KeyCode::F5)
        } else if s[1] == '6' {
            leaf_key(s, KeyCode::F6)
        } else if s[1] == '7' {
            leaf_key(s, KeyCode::F7)
        } else if s[1] == '8' {
            leaf_key(s, KeyCode::F8)
        } else if s[1] == '9' {
            leaf_key(s, KeyCode::F9)
        } else {
            None
        }
    } else if s.len() == 3 {
        if s[2] == '0' {
            if s[1] == '1' {
                leaf_key(s, KeyCode::F10)
            } else if s[1] == '2' {
                leaf_key(s, KeyCode::F20)
            } else {
                None
            }
        } else if s[2] == '1' {
            if s[1] == '1' {
                leaf_key(s, KeyCode::F11)
            } else if s[1] == '2' {
                leaf_key(s, KeyCode::F21)
            } else {
                None
            }
        } else if s[2] == '2' {
            if s[1] == '1' {
                leaf_key(s, KeyCode::F12)
            } else if s[1] == '2' {
                leaf_key(s, KeyCode::F22)
            } else {
                None
            }
        } else if s[2] == '3' {
            if s[1] == '1' {
                leaf_key(s, KeyCode::F13)
            } else if s[1] == '2' {
                leaf_key(s, KeyCode::F23)
            } else {
                None
            }
        } else if s[2] == '4' {
            if s[1] == '1' {
                leaf_key(s, KeyCode::F14)
            } else if s[1] == '2' {
                leaf_key(s, KeyCode::F24)
            } else {
                None
            }
        } else if s[2] == '5' {
            leaf_key(s, KeyCode::F15)
        } else if s[2] == '6' {
            leaf_key(s, KeyCode::F16)
        } else if s[2] == '7' {
            leaf_key(s, KeyCode::F17)
        } else if s[2] == '8' {
            leaf_key(s, KeyCode::F18)
        } else if s[2] == '9' {
            leaf_key(s, KeyCode::F19)
        } else if s[2] == 'b' {
            leaf_key(s, KeyCode::Tab)
        } else if s[2] == 'd' {
            leaf_key(s, KeyCode::End)
        } else {
            None
        }
    } else if s.len() == 4 {
        if s[3] == 'A' {
            leaf_key(s, KeyCode::KeyA)
        } else if s[3] == 'B' {
            leaf_key(s, KeyCode::KeyB)
        } else if s[3] == 'C' {
            leaf_key(s, KeyCode::KeyC)
        } else if s[3] == 'D' {
            leaf_key(s, KeyCode::KeyD)
        } else if s[3] == 'E' {
            leaf_key(s, KeyCode::KeyE)
        } else if s[3] == 'F' {
            leaf_key(s, KeyCode::KeyF)
        } else if s[3] == 'G' {
            leaf_key(s, KeyCode::KeyG)
        } else if s[3] == 'H' {
            leaf_key(s, KeyCode::KeyH)
        } else if s[3] == 'I' {
            leaf_key(s, KeyCode::KeyI)
        } else if s[3] == 'J' {
            leaf_key(s, KeyCode::KeyJ)
        } else if s[3] == 'K' {
            leaf_key(s, KeyCode::KeyK)
        } else if s[3] == 'L' {
            leaf_key(s, KeyCode::KeyL)
        } else if s[3] == 'M' {
            leaf_key(s, KeyCode::KeyM)
        } else if s[3] == 'N' {
            leaf_key(s, KeyCode::KeyN)
        } else if s[3] == 'O' {
            leaf_key(s, KeyCode::KeyO)
        } else if s[3] == 'P' {
            leaf_key(s, KeyCode::KeyP)
        } else if s[3] == 'Q' {
            leaf_key(s, KeyCode::KeyQ)
        } else if s[3] == 'R' {
            leaf_key(s, KeyCode::KeyR)
        } else if s[3] == 'S' {
            leaf_key(s, KeyCode::KeyS)
        } else if s[3] == 'T' {
            leaf_key(s, KeyCode::KeyT)
        } else if s[3] == 'U' {
            leaf_key(s, KeyCode::KeyU)
        } else if s[3] == 'V' {
            leaf_key(s, KeyCode::KeyV)
        } else if s[3] == 'W' {
            leaf_key(s, KeyCode::KeyW)
        } else if s[3] == 'X' {
            leaf_key(s, KeyCode::KeyX)
        } else if s[3] == 'Y' {
            leaf_key(s, KeyCode::KeyY)
        } else if s[3] == 'Z' {
            leaf_key(s, KeyCode::KeyZ)
        } else if s[3] == 'e' {
            leaf_key(s, KeyCode::Home)
        } else {
            None
        }
    } else if s.len() == 5 {
        if s[1] == 'a' {
            leaf_key(s, KeyCode::Pause)
        } else if s[1] == 'i' {
            leaf_key(s, KeyCode::Minus)
        } else if s[1] == 'l' {
            leaf_key(s, KeyCode::Slash)
        } else if s[1] == 'n' {
            leaf_key(s, KeyCode::Enter)
        } else if s[1] == 'o' {
            leaf_key(s, KeyCode::Comma)
        } else if s[1] == 'p' {
            leaf_key(s, KeyCode::Space)
        } else if s[1] == 'q' {
            leaf_key(s, KeyCode::Equal)
        } else if s[1] == 'u' {
            leaf_key(s, KeyCode::Quote)
        } else {
            None
        }
    } else if s.len() == 6 {
        if s[5] == '0' {
            leaf_key(s, KeyCode::Digit0)
        } else if s[5] == '1' {
            leaf_key(s, KeyCode::Digit1)
        } else if s[5] == '2' {
            leaf_key(s, KeyCode::Digit2)
        } else if s[5] == '3' {
            leaf_key(s, KeyCode::Digit3)
        } else if s[5] == '4' {
            leaf_key(s, KeyCode::Digit4)
        } else if s[5] == '5' {
            leaf_key(s, KeyCode::Digit5)
        } else if s[5] == '6' {
            leaf_key(s, KeyCode::Digit6)
        } else if s[5] == '7' {
            leaf_key(s, KeyCode::Digit7)
        } else if s[5] == '8' {
            leaf_key(s, KeyCode::Digit8)
        } else if s[5] == '9' {
            leaf_key(s, KeyCode::Digit9)
        } else if s[5] == 'd' {
            leaf_key(s, KeyCode::Period)
        } else if s[5] == 'e' {
            if s[0] == 'D' {
                leaf_key(s, KeyCode::Delete)
            } else if s[0] == 'E' {
                leaf_key(s, KeyCode::Escape)
            } else {
                None
            }
        } else if s[5] == 'p' {
            leaf_key(s, KeyCode::PageUp)
        } else if s[5] == 't' {
            leaf_key(s, KeyCode::Insert)
        } else {
            None
        }
    } else if s.len() == 7 {
        if s[6] == '0' {
            leaf_key(s, KeyCode::Numpad0)
        } else if s[6] == '1' {
            leaf_key(s, KeyCode::Numpad1)
        } else if s[6] == '2' {
            leaf_key(s, KeyCode::Numpad2)
        } else if s[6] == '3' {
            leaf_key(s, KeyCode::Numpad3)
        } else if s[6] == '4' {
            leaf_key(s, KeyCode::Numpad4)
        } else if s[6] == '5' {
            leaf_key(s, KeyCode::Numpad5)
        } else if s[6] == '6' {
            leaf_key(s, KeyCode::Numpad6)
        } else if s[6] == '7' {
            leaf_key(s, KeyCode::Numpad7)
        } else if s[6] == '8' {
            leaf_key(s, KeyCode::Numpad8)
        } else if s[6] == '9' {
            leaf_key(s, KeyCode::Numpad9)
        } else if s[6] == 'p' {
            leaf_key(s, KeyCode::ArrowUp)
        } else if s[6] == 't' {
            leaf_key(s, KeyCode::AltLeft)
        } else {
            None
        }
    } else if s.len() == 8 {
        if s[0] == 'A' {
            leaf_key(s, KeyCode::AltRight)
        } else if s[0] == 'C' {
            leaf_key(s, KeyCode::CapsLock)
        } else if s[0] == 'P' {
            leaf_key(s, KeyCode::PageDown)
        } else {
            None
        }
    } else if s.len() == 9 {
        if s[4] == 'a' {
            leaf_key(s, KeyCode::NumpadAdd)
        } else if s[4] == 'c' {
            leaf_key(s, KeyCode::Semicolon)
        } else if s[4] == 'q' {
            leaf_key(s, KeyCode::Backquote)
        } else if s[4] == 'r' {
            leaf_key(s, KeyCode::SuperLeft)
        } else if s[4] == 's' {
            if s[5] == 'l' {
                leaf_key(s, KeyCode::Backslash)
            } else if s[5] == 'p' {
                leaf_key(s, KeyCode::Backspace)
            } else {
                None
            }
        } else if s[4] == 't' {
            leaf_key(s, KeyCode::ShiftLeft)
        } else if s[4] == 'w' {
            if s[5] == 'D' {
                leaf_key(s, KeyCode::ArrowDown)
            } else if s[5] == 'L' {
                leaf_key(s, KeyCode::ArrowLeft)
            } else {
                None
            }
        } else {
            None
        }
    } else if s.len() == 10 {
        if s[1] == 'c' {
            leaf_key(s, KeyCode::ScrollLock)
        } else if s[1] == 'h' {
            leaf_key(s, KeyCode::ShiftRight)
        } else if s[1] == 'r' {
            leaf_key(s, KeyCode::ArrowRight)
        } else if s[1] == 'u' {
            leaf_key(s, KeyCode::SuperRight)
        } else {
            None
        }
    } else if s.len() == 11 {
        if s[0] == 'B' {
            leaf_key(s, KeyCode::BracketLeft)
        } else if s[0] == 'C' {
            leaf_key(s, KeyCode::ControlLeft)
        } else if s[0] == 'N' {
            leaf_key(s, KeyCode::NumpadEnter)
        } else if s[0] == 'P' {
            leaf_key(s, KeyCode::PrintScreen)
        } else {
            None
        }
    } else if s.len() == 12 {
        if s[0] == 'B' {
            leaf_key(s, KeyCode::BracketRight)
        } else if s[0] == 'C' {
            leaf_key(s, KeyCode::ControlRight)
        } else if s[0] == 'N' {
            leaf_key(s, KeyCode::NumpadDivide)
        } else {
            None
        }
    } else if s.len() == 13 {
        leaf_key(s, KeyCode::NumpadDecimal)
    } else if s.len() == 14 {
        if s[6] == 'M' {
            leaf_key(s, KeyCode::NumpadMultiply)
        } else if s[6] == 'S' {
            leaf_key(s, KeyCode::NumpadSubtract)
        } else {
            None
        }
    } else {
        None
    }
}

fn chars_equal(a: &Vec<char>, b: &[char]) -> (r: bool)
    ensures
        r == (a@ == b@),
{
    if a.len() != b.len() {
        return false;
    }
    let mut i: usize = 0;
    while i < a.len()
        invariant
            a.len() == b.len(),
            i <= a.len(),
            forall|j: int| 0 <= j < i ==> a@[j] == b@[j],
        decreases a.len() - i,
    {
        if a[i] != b[i] {
            return false;
        }
        i += 1;
    }
    assert(a@ =~= b@);
    true
}

#[verifier::rlimit(50)]
fn key_by_shape_exec(c: &Vec<char>) -> (r: Option<KeyCode>)
    ensures
        r == key_by_shape(c@),
{
    if c.len() == 2 {
        if c[1] == '1' {
            let name: [char; 2] = ['F', '1'];
            assert(name@ =~= seq!['F', '1']);
            if chars_equal(c, &name) { Some(KeyCode::F1) } else { None }
        } else if c[1] == '2' {
            let name: [char; 2] = ['F', '2'];
            assert(name@ =~= seq!['F', '2']);
            if chars_equal(c, &name) { Some(KeyCode::F2) } else { None }
        } else if c[1] == '3' {
            let name: [char; 2] = ['F', '3'];
            assert(name@ =~= seq!['F', '3']);
            if chars_equal(c, &name) { Some(KeyCode::F3) } else { None }
        } else if c[1] == '4' {
            let name: [char; 2] = ['F', '4'];
            assert(name@ =~= seq!['F', '4']);
            if chars_equal(c, &name) { Some(KeyCode::F4) } else { None }
        } else if c[1] == '5' {
            let name: [char; 2] = ['F', '5'];
            assert(name@ =~= seq!['F', '5']);
            if chars_equal(c, &name) { Some(KeyCode::F5) } else { None }
        } else if c[1] == '6' {
            let name: [char; 2] = ['F', '6'];
            assert(name@ =~= seq!['F', '6']);
            if chars_equal(c, &name) { Some(KeyCode::F6) } else { None }
        } else if c[1] == '7' {
            let name: [char; 2] = ['F', '7'];
            assert(name@ =~= seq!['F', '7']);
            if chars_equal(c, &name) { Some(KeyCode::F7) } else { None }
        } else if c[1] == '8' {
            let name: [char; 2] = ['F', '8'];
            assert(name@ =~= seq!['F', '8']);
            if chars_equal(c, &name) { Some(KeyCode::F8) } else { None }
        } else if c[1] == '9' {
            let name: [char; 2] = ['F', '9'];
            assert(name@ =~= seq!['F', '9']);
            if chars_equal(c, &name) { Some(KeyCode::F9) } else { None }
        } else {
            None
        }
    } else if c.len() == 3 {
        if c[2] == '0' {
            if c[1] == '1' {
                let name: [char; 3] = ['F', '1', '0'];
                assert(name@ =~= seq!['F', '1', '0']);
                if chars_equal(c, &name) { Some(KeyCode::F10) } else { None }
            } else if c[1] == '2' {
                let name: [char; 3] = ['F', '2', '0'];
                assert(name@ =~= seq!['F', '2', '0']);
                if chars_equal(c, &name) { Some(KeyCode::F20) } else { None }
            } else {
                None
            }
        } else if c[2] == '1' {
            if c[1] == '1' {
                let name: [char; 3] = ['F', '1', '1'];
                assert(name@ =~= seq!['F', '1', '1']);
                if chars_equal(c, &name) { Some(KeyCode::F11) } else { None }
            } else if c[1] == '2' {
                let name: [char; 3] = ['F', '2', '1'];
                assert(name@ =~= seq!['F', '2', '1']);
                if chars_equal(c, &name) { Some(KeyCode::F21) } else { None }
            } else {
                None
            }
        } else if c[2] == '2' {
            if c[1] == '1' {
                let name: [char; 3] = ['F', '1', '2'];
                assert(name@ =~= seq!['F', '1', '2']);
                if chars_equal(c, &name) { Some(KeyCode::F12) } else { None }
            } else if c[1] == '2' {
                let name: [char; 3] = ['F', '2', '2'];
                assert(name@ =~= seq!['F', '2', '2']);
                if chars_equal(c, &name) { Some(KeyCode::F22) } else { None }
            } else {
                None
            }
        } else if c[2] == '3' {
            if c[1] == '1' {
                let name: [char; 3] = ['F', '1', '3'];
                assert(name@ =~= seq!['F', '1', '3']);
                if chars_equal(c, &name) { Some(KeyCode::F13) } else { None }
            } else if c[1] == '2' {
                let name: [char; 3] = ['F', '2', '3'];
                assert(name@ =~= seq!['F', '2', '3']);
                if chars_equal(c, &name) { Some(KeyCode::F23) } else { None }
            } else {
                None
            }
        } else if c[2] == '4' {
            if c[1] == '1' {
                let name: [char; 3] = ['F', '1', '4'];
                assert(name@ =~= seq!['F', '1', '4']);
                if chars_equal(c, &name) { Some(KeyCode::F14) } else { None }
            } else if c[1] == '2' {
                let name: [char; 3] = ['F', '2', '4'];
                assert(name@ =~= seq!['F', '2', '4']);
                if chars_equal(c, &name) { Some(KeyCode::F24) } else { None }
            } else {
                None
            }
        } else if c[2] == '5' {
            let name: [char; 3] = ['F', '1', '5'];
            assert(name@ =~= seq!['F', '1', '5']);
            if chars_equal(c, &name) { Some(KeyCode::F15) } else { None }
        } else if c[2] == '6' {
            let name: [char; 3] = ['F', '1', '6'];
            assert(name@ =~= seq!['F', '1', '6']);
            if chars_equal(c, &name) { Some(KeyCode::F16) } else { None }
        } else if c[2] == '7' {
            let name: [char; 3] = ['F', '1', '7'];
            assert(name@ =~= seq!['F', '1', '7']);
            if chars_equal(c, &name) { Some(KeyCode::F17) } else { None }
        } else if c[2] == '8' {
            let name: [char; 3] = ['F', '1', '8'];
            assert(name@ =~= seq!['F', '1', '8']);
            if chars_equal(c, &name) { Some(KeyCode::F18) } else { None }
        } else if c[2] == '9' {
            let name: [char; 3] = ['F', '1', '9'];
            assert(name@ =~= seq!['F', '1', '9']);
            if chars_equal(c, &name) { Some(KeyCode::F19) } else { None }
        } else if c[2] == 'b' {
            let name: [char; 3] = ['T', 'a', 'b'];
            assert(name@ =~= seq!['T', 'a', 'b']);
            if chars_equal(c, &name) { Some(KeyCode::Tab) } else { None }
        } else if c[2] == 'd' {
            let name: [char; 3] = ['E', 'n', 'd'];
            assert(name@ =~= seq!['E', 'n', 'd']);
            if chars_equal(c, &name) { Some(KeyCode::End) } else { None }
        } else {
            None
        }
    } else if c.len() == 4 {
        if c[3] == 'A' {
            let name: [char; 4] = ['K', 'e', 'y', 'A'];
            assert(name@ =~= seq!['K', 'e', 'y', 'A']);
            if chars_equal(c, &name) { Some(KeyCode::KeyA) } else { None }
        } else if c[3] == 'B' {
            let name: [char; 4] = ['K', 'e', 'y', 'B'];
            assert(name@ =~= seq!['K', 'e', 'y', 'B']);
            if chars_equal(c, &name) { Some(KeyCode::KeyB) } else { None }
        } else if c[3] == 'C' {
            let name: [char; 4] = ['K', 'e', 'y', 'C'];
            assert(name@ =~= seq!['K', 'e', 'y', 'C']);
            if chars_equal(c, &name) { Some(KeyCode::KeyC) } else { None }
        } else if c[3] == 'D' {
            let name: [char; 4] = ['K', 'e', 'y', 'D'];
            assert(name@ =~= seq!['K', 'e', 'y', 'D']);
            if chars_equal(c, &name) { Some(KeyCode::KeyD) } else { None }
        } else if c[3] == 'E' {
            let name: [char; 4] = ['K', 'e', 'y', 'E'];
            assert(name@ =~= seq!['K', 'e', 'y', 'E']);
            if chars_equal(c, &name) { Some(KeyCode::KeyE) } else { None }
        } else if c[3] == 'F' {
            let name: [char; 4] = ['K', 'e', 'y', 'F'];
            assert(name@ =~= seq!['K', 'e', 'y', 'F']);
            if chars_equal(c, &name) { Some(KeyCode::KeyF) } else { None }
        } else if c[3] == 'G' {
            let name: [char; 4] = ['K', 'e', 'y', 'G'];
            assert(name@ =~= seq!['K', 'e', 'y', 'G']);
            if chars_equal(c, &name) { Some(KeyCode::KeyG) } else { None }
        } else if c[3] == 'H' {
            let name: [char; 4] = ['K', 'e', 'y', 'H'];
            assert(name@ =~= seq!['K', 'e', 'y', 'H']);
            if chars_equal(c, &name) { Some(KeyCode::KeyH) } else { None }
        } else if c[3] == 'I' {
            let name: [char; 4] = ['K', 'e', 'y', 'I'];
            assert(name@ =~= seq!['K', 'e', 'y', 'I']);
            if chars_equal(c, &name) { Some(KeyCode::KeyI) } else { None }
        } else if c[3] == 'J' {
            let name: [char; 4] = ['K', 'e', 'y', 'J'];
            assert(name@ =~= seq!['K', 'e', 'y', 'J']);
            if chars_equal(c, &name) { Some(KeyCode::KeyJ) } else { None }
        } else if c[3] == 'K' {
            let name: [char; 4] = ['K', 'e', 'y', 'K'];
            assert(name@ =~= seq!['K', 'e', 'y', 'K']);
            if chars_equal(c, &name) { Some(KeyCode::KeyK) } else { None }
        } else if c[3] == 'L' {
            let name: [char; 4] = ['K', 'e', 'y', 'L'];
            assert(name@ =~= seq!['K', 'e', 'y', 'L']);
            if chars_equal(c, &name) { Some(KeyCode::KeyL) } else { None }
        } else if c[3] == 'M' {
            let name: [char; 4] = ['K', 'e', 'y', 'M'];
            assert(name@ =~= seq!['K', 'e', 'y', 'M']);
            if chars_equal(c, &name) { Some(KeyCode::KeyM) } else { None }
        } else if c[3] == 'N' {
            let name: [char; 4] = ['K', 'e', 'y', 'N'];
            assert(name@ =~= seq!['K', 'e', 'y', 'N']);
            if chars_equal(c, &name) { Some(KeyCode::KeyN) } else { None }
        } else if c[3] == 'O' {
            let name: [char; 4] = ['K', 'e', 'y', 'O'];
            assert(name@ =~= seq!['K', 'e', 'y', 'O']);
            if chars_equal(c, &name) { Some(KeyCode::KeyO) } else { None }
        } else if c[3] == 'P' {
            let name: [char; 4] = ['K', 'e', 'y', 'P'];
            assert(name@ =~= seq!['K', 'e', 'y', 'P']);
            if chars_equal(c, &name) { Some(KeyCode::KeyP) } else { None }
        } else if c[3] == 'Q' {
            let name: [char; 4] = ['K', 'e', 'y', 'Q'];
            assert(name@ =~= seq!['K', 'e', 'y', 'Q']);
            if chars_equal(c, &name) { Some(KeyCode::KeyQ) } else { None }
        } else if c[3] == 'R' {
            let name: [char; 4] = ['K', 'e', 'y', 'R'];
            assert(name@ =~= seq!['K', 'e', 'y', 'R']);
            if chars_equal(c, &name) { Some(KeyCode::KeyR) } else { None }
        } else if c[3] == 'S' {
            let name: [char; 4] = ['K', 'e', 'y', 'S'];
            assert(name@ =~= seq!['K', 'e', 'y', 'S']);
            if chars_equal(c, &name) { Some(KeyCode::KeyS) } else { None }
        } else if c[3] == 'T' {
            let name: [char; 4] = ['K', 'e', 'y', 'T'];
            assert(name@ =~= seq!['K', 'e', 'y', 'T']);
            if chars_equal(c, &name) { Some(KeyCode::KeyT) } else { None }
        } else if c[3] == 'U' {
            let name: [char; 4] = ['K', 'e', 'y', 'U'];
            assert(name@ =~= seq!['K', 'e', 'y', 'U']);
            if chars_equal(c, &name) { Some(KeyCode::KeyU) } else { None }
        } else if c[3] == 'V' {
            let name: [char; 4] = ['K', 'e', 'y', 'V'];
            assert(name@ =~= seq!['K', 'e', 'y', 'V']);
            if chars_equal(c, &name) { Some(KeyCode::KeyV) } else { None }
        } else if c[3] == 'W' {
            let name: [char; 4] = ['K', 'e', 'y', 'W'];
            assert(name@ =~= seq!['K', 'e', 'y', 'W']);
            if chars_equal(c, &name) { Some(KeyCode::KeyW) } else { None }
        } else if c[3] == 'X' {
            let name: [char; 4] = ['K', 'e', 'y', 'X'];
            assert(name@ =~= seq!['K', 'e', 'y', 'X']);
            if chars_equal(c, &name) { Some(KeyCode::KeyX) } else { None }
        } else if c[3] == 'Y' {
            let name: [char; 4] = ['K', 'e', 'y', 'Y'];
            assert(name@ =~= seq!['K', 'e', 'y', 'Y']);
            if chars_equal(c, &name) { Some(KeyCode::KeyY) } else { None }
        } else if c[3] == 'Z' {
            let name: [char; 4] = ['K', 'e', 'y', 'Z'];
            assert(name@ =~= seq!['K', 'e', 'y', 'Z']);
            if chars_equal(c, &name) { Some(KeyCode::KeyZ) } else { None }
        } else if c[3] == 'e' {
            let name: [char; 4] = ['H', 'o', 'm', 'e'];
            assert(name@ =~= seq!['H', 'o', 'm', 'e']);
            if chars_equal(c, &name) { Some(KeyCode::Home) } else { None }
        } else {
            None
        }
    } else if c.len() == 5 {
        if c[1] == 'a' {
            let name: [char; 5] = ['P', 'a', 'u', 's', 'e'];
            assert(name@ =~= seq!['P', 'a', 'u', 's', 'e']);
            if chars_equal(c, &name) { Some(KeyCode::Pause) } else { None }
        } else if c[1] == 'i' {
            let name: [char; 5] = ['M', 'i', 'n', 'u', 's'];
            assert(name@ =~= seq!['M', 'i', 'n', 'u', 's']);
            if chars_equal(c, &name) { Some(KeyCode::Minus) } else { None }
        } else if c[1] == 'l' {
            let name: [char; 5] = ['S', 'l', 'a', 's', 'h'];
            assert(name@ =~= seq!['S', 'l', 'a', 's', 'h']);
            if chars_equal(c, &name) { Some(KeyCode::Slash) } else { None }
        } else if c[1] == 'n' {
            let name: [char; 5] = ['E', 'n', 't', 'e', 'r'];
            assert(name@ =~= seq!['E', 'n', 't', 'e', 'r']);
            if chars_equal(c, &name) { Some(KeyCode::Enter) } else { None }
        } else if c[1] == 'o' {
            let name: [char; 5] = ['C', 'o', 'm', 'm', 'a'];
            assert(name@ =~= seq!['C', 'o', 'm', 'm', 'a']);
            if chars_equal(c, &name) { Some(KeyCode::Comma) } else { None }
        } else if c[1] == 'p' {
            let name: [char; 5] = ['S', 'p', 'a', 'c', 'e'];
            assert(name@ =~= seq!['S', 'p', 'a', 'c', 'e']);
            if chars_equal(c, &name) { Some(KeyCode::Space) } else { None }
        } else if c[1] == 'q' {
            let name: [char; 5] = ['E', 'q', 'u', 'a', 'l'];
            assert(name@ =~= seq!['E', 'q', 'u', 'a', 'l']);
            if chars_equal(c, &name) { Some(KeyCode::Equal) } else { None }
        } else if c[1] == 'u' {
            let name: [char; 5] = ['Q', 'u', 'o', 't', 'e'];
            assert(name@ =~= seq!['Q', 'u', 'o', 't', 'e']);
            if chars_equal(c, &name) { Some(KeyCode::Quote) } else { None }
        } else {
            None
        }
    } else if c.len() == 6 {
        if c[5] == '0' {
            let name: [char; 6] = ['D', 'i', 'g', 'i', 't', '0'];
            assert(name@ =~= seq!['D', 'i', 'g', 'i', 't', '0']);
            if chars_equal(c, &name) { Some(KeyCode::Digit0) } else { None }
        } else if c[5] == '1' {
            let name: [char; 6] = ['D', 'i', 'g', 'i', 't', '1'];
            assert(name@ =~= seq!['D', 'i', 'g', 'i', 't', '1']);
            if chars_equal(c, &name) { Some(KeyCode::Digit1) } else { None }
        } else if c[5] == '2' {
            let name: [char; 6] = ['D', 'i', 'g', 'i', 't', '2'];
            assert(name@ =~= seq!['D', 'i', 'g', 'i', 't', '2']);
            if chars_equal(c, &name) { Some(KeyCode::Digit2) } else { None }
        } else if c[5] == '3' {
            let name: [char; 6] = ['D', 'i', 'g', 'i', 't', '3'];
            assert(name@ =~= seq!['D', 'i', 'g', 'i', 't', '3']);
            if chars_equal(c, &name) { Some(KeyCode::Digit3) } else { None }
        } else if c[5] == '4' {
            let name: [char; 6] = ['D', 'i', 'g', 'i', 't', '4'];
            assert(name@ =~= seq!['D', 'i', 'g', 'i', 't', '4']);
            if chars_equal(c, &name) { Some(KeyCode::Digit4) } else { None }
        } else if c[5] == '5' {
            let name: [char; 6] = ['D', 'i', 'g', 'i', 't', '5'];
            assert(name@ =~= seq!['D', 'i', 'g', 'i', 't', '5']);
            if chars_equal(c, &name) { Some(KeyCode::Digit5) } else { None }
        } else if c[5] == '6' {
            let name: [char; 6] = ['D', 'i', 'g', 'i', 't', '6'];
            assert(name@ =~= seq!['D', 'i', 'g', 'i', 't', '6']);
            if chars_equal(c, &name) { Some(KeyCode::Digit6) } else { None }
        } else if c[5] == '7' {
            let name: [char; 6] = ['D', 'i', 'g', 'i', 't', '7'];
            assert(name@ =~= seq!['D', 'i', 'g', 'i', 't', '7']);
            if chars_equal(c, &name) { Some(KeyCode::Digit7) } else { None }
        } else if c[5] == '8' {
            let name: [char; 6] = ['D', 'i', 'g', 'i', 't', '8'];
            assert(name@ =~= seq!['D', 'i', 'g', 'i', 't', '8']);
            if chars_equal(c, &name) { Some(KeyCode::Digit8) } else { None }
        } else if c[5] == '9' {
            let name: [char; 6] = ['D', 'i', 'g', 'i', 't', '9'];
            assert(name@ =~= seq!['D', 'i', 'g', 'i', 't', '9']);
            if chars_equal(c, &name) { Some(KeyCode::Digit9) } else { None }
        } else if c[5] == 'd' {
            let name: [char; 6] = ['P', 'e', 'r', 'i', 'o', 'd'];
            assert(name@ =~= seq!['P', 'e', 'r', 'i', 'o', 'd']);
            if chars_equal(c, &name) { Some(KeyCode::Period) } else { None }
        } else if c[5] == 'e' {
            if c[0] == 'D' {
                let name: [char; 6] = ['D', 'e', 'l', 'e', 't', 'e'];
                assert(name@ =~= seq!['D', 'e', 'l', 'e', 't', 'e']);
                if chars_equal(c, &name) { Some(KeyCode::Delete) } else { None }
            } else if c[0] == 'E' {
                let name: [char; 6] = ['E', 's', 'c', 'a', 'p', 'e'];
                assert(name@ =~= seq!['E', 's', 'c', 'a', 'p', 'e']);
                if chars_equal(c, &name) { Some(KeyCode::Escape) } else { None }
            } else {
                None
            }
        } else if c[5] == 'p' {
            let name: [char; 6] = ['P', 'a', 'g', 'e', 'U', 'p'];
            assert(name@ =~= seq!['P', 'a', 'g', 'e', 'U', 'p']);
            if chars_equal(c, &name) { Some(KeyCode::PageUp) } else { None }
        } else if c[5] == 't' {
            let name: [char; 6] = ['I', 'n', 's', 'e', 'r', 't'];
            assert(name@ =~= seq!['I', 'n', 's', 'e', 'r', 't']);
            if chars_equal(c, &name) { Some(KeyCode::Insert) } else { None }
        } else {
            None
        }
    } else if c.len() == 7 {
        if c[6] == '0' {
            let name: [char; 7] = ['N', 'u', 'm', 'p', 'a', 'd', '0'];
            assert(name@ =~= seq!['N', 'u', 'm', 'p', 'a', 'd', '0']);
            if chars_equal(c, &name) { Some(KeyCode::Numpad0) } else { None }
        } else if c[6] == '1' {
            let name: [char; 7] = ['N', 'u', 'm', 'p', 'a', 'd', '1'];
            assert(name@ =~= seq!['N', 'u', 'm', 'p', 'a', 'd', '1']);
            if chars_equal(c, &name) { Some(KeyCode::Numpad1) } else { None }
        } else if c[6] == '2' {
            let name: [char; 7] = ['N', 'u', 'm', 'p', 'a', 'd', '2'];
            assert(name@ =~= seq!['N', 'u', 'm', 'p', 'a', 'd', '2']);
            if chars_equal(c, &name) { Some(KeyCode::Numpad2) } else { None }
        } else if c[6] == '3' {
            let name: [char; 7] = ['N', 'u', 'm', 'p', 'a', 'd', '3'];
            assert(name@ =~= seq!['N', 'u', 'm', 'p', 'a', 'd', '3']);
            if chars_equal(c, &name) { Some(KeyCode::Numpad3) } else { None }
        } else if c[6] == '4' {
            let name: [char; 7] = ['N', 'u', 'm', 'p', 'a', 'd', '4'];
            assert(name@ =~= seq!['N', 'u', 'm', 'p', 'a', 'd', '4']);
            if chars_equal(c, &name) { Some(KeyCode::Numpad4) } else { None }
        } else if c[6] == '5' {
            let name: [char; 7] = ['N', 'u', 'm', 'p', 'a', 'd', '5'];
            assert(name@ =~= seq!['N', 'u', 'm', 'p', 'a', 'd', '5']);
            if chars_equal(c, &name) { Some(KeyCode::Numpad5) } else { None }
        } else if c[6] == '6' {
            let name: [char; 7] = ['N', 'u', 'm', 'p', 'a', 'd', '6'];
            assert(name@ =~= seq!['N', 'u', 'm', 'p', 'a', 'd', '6']);
            if chars_equal(c, &name) { Some(KeyCode::Numpad6) } else { None }
        } else if c[6] == '7' {
            let name: [char; 7] = ['N', 'u', 'm', 'p', 'a', 'd', '7'];
            assert(name@ =~= seq!['N', 'u', 'm', 'p', 'a', 'd', '7']);
            if chars_equal(c, &name) { Some(KeyCode::Numpad7) } else { None }
        } else if c[6] == '8' {
            let name: [char; 7] = ['N', 'u', 'm', 'p', 'a', 'd', '8'];
            assert(name@ =~= seq!['N', 'u', 'm', 'p', 'a', 'd', '8']);
            if chars_equal(c, &name) { Some(KeyCode::Numpad8) } else { None }
        } else if c[6] == '9' {
            let name: [char; 7] = ['N', 'u', 'm', 'p', 'a', 'd', '9'];
            assert(name@ =~= seq!['N', 'u', 'm', 'p', 'a', 'd', '9']);
            if chars_equal(c, &name) { Some(KeyCode::Numpad9) } else { None }
        } else if c[6] == 'p' {
            let name: [char; 7] = ['A', 'r', 'r', 'o', 'w', 'U', 'p'];
            assert(name@ =~= seq!['A', 'r', 'r', 'o', 'w', 'U', 'p']);
            if chars_equal(c, &name) { Some(KeyCode::ArrowUp) } else { None }
        } else if c[6] == 't' {
            let name: [char; 7] = ['A', 'l', 't', 'L', 'e', 'f', 't'];
            assert(name@ =~= seq!['A', 'l', 't', 'L', 'e', 'f', 't']);
            if chars_equal(c, &name) { Some(KeyCode::AltLeft) } else { None }
        } else {
            None
        }
    } else if c.len() == 8 {
        if c[0] == 'A' {
            let name: [char; 8] = ['A', 'l', 't', 'R', 'i', 'g', 'h', 't'];
            assert(name@ =~= seq!['A', 'l', 't', 'R', 'i', 'g', 'h', 't']);
            if chars_equal(c, &name) { Some(KeyCode::AltRight) } else { None }
        } else if c[0] == 'C' {
            let name: [char; 8] = ['C', 'a', 'p', 's', 'L', 'o', 'c', 'k'];
            assert(name@ =~= seq!['C', 'a', 'p', 's', 'L', 'o', 'c', 'k']);
            if chars_equal(c, &name) { Some(KeyCode::CapsLock) } else { None }
        } else if c[0] == 'P' {
            let name: [char; 8] = ['P', 'a', 'g', 'e', 'D', 'o', 'w', 'n'];
            assert(name@ =~= seq!['P', 'a', 'g', 'e', 'D', 'o', 'w', 'n']);
            if chars_equal(c, &name) { Some(KeyCode::PageDown) } else { None }
        } else {
            None
        }
    } else if c.len() == 9 {
        if c[4] == 'a' {
            let name: [char; 9] = ['N', 'u', 'm', 'p', 'a', 'd', 'A', 'd', 'd'];
            assert(name@ =~= seq!['N', 'u', 'm', 'p', 'a', 'd', 'A', 'd', 'd']);
            if chars_equal(c, &name) { Some(KeyCode::NumpadAdd) } else { None }
        } else if c[4] == 'c' {
            let name: [char; 9] = ['S', 'e', 'm', 'i', 'c', 'o', 'l', 'o', 'n'];
            assert(name@ =~= seq!['S', 'e', 'm', 'i', 'c', 'o', 'l', 'o', 'n']);
            if chars_equal(c, &name) { Some(KeyCode::Semicolon) } else { None }
        } else if c[4] == 'q' {
            let name: [char; 9] = ['B', 'a', 'c', 'k', 'q', 'u', 'o', 't', 'e'];
            assert(name@ =~= seq!['B', 'a', 'c', 'k', 'q', 'u', 'o', 't', 'e']);
            if chars_equal(c, &name) { Some(KeyCode::Backquote) } else { None }
        } else if c[4] == 'r' {
            let name: [char; 9] = ['S', 'u', 'p', 'e', 'r', 'L', 'e', 'f', 't'];
            assert(name@ =~= seq!['S', 'u', 'p', 'e', 'r', 'L', 'e', 'f', 't']);
            if chars_equal(c, &name) { Some(KeyCode::SuperLeft) } else { None }
        } else if c[4] == 's' {
            if c[5] == 'l' {
                let name: [char; 9] = ['B', 'a', 'c', 'k', 's', 'l', 'a', 's', 'h'];
                assert(name@ =~= seq!['B', 'a', 'c', 'k', 's', 'l', 'a', 's', 'h']);
                if chars_equal(c, &name) { Some(KeyCode::Backslash) } else { None }
            } else if c[5] == 'p' {
                let name: [char; 9] = ['B', 'a', 'c', 'k', 's', 'p', 'a', 'c', 'e'];
                assert(name@ =~= seq!['B', 'a', 'c', 'k', 's', 'p', 'a', 'c', 'e']);
                if chars_equal(c, &name) { Some(KeyCode::Backspace) } else { None }
            } else {
                None
            }
        } else if c[4] == 't' {
            let name: [char; 9] = ['S', 'h', 'i', 'f', 't', 'L', 'e', 'f', 't'];
            assert(name@ =~= seq!['S', 'h', 'i', 'f', 't', 'L', 'e', 'f', 't']);
            if chars_equal(c, &name) { Some(KeyCode::ShiftLeft) } else { None }
        } else if c[4] == 'w' {
            if c[5] == 'D' {
                let name: [char; 9] = ['A', 'r', 'r', 'o', 'w', 'D', 'o', 'w', 'n'];
                assert(name@ =~= seq!['A', 'r', 'r', 'o', 'w', 'D', 'o', 'w', 'n']);
                if chars_equal(c, &name) { Some(KeyCode::ArrowDown) } else { None }
            } else if c[5] == 'L' {
                let name: [char; 9] = ['A', 'r', 'r', 'o', 'w', 'L', 'e', 'f', 't'];
                assert(name@ =~= seq!['A', 'r', 'r', 'o', 'w', 'L', 'e', 'f', 't']);
                if chars_equal(c, &name) { Some(KeyCode::ArrowLeft) } else { None }
            } else {
                None
            }
        } else {
            None
        }
    } else if c.len() == 10 {
        if c[1] == 'c' {
            let name: [char; 10] = ['S', 'c', 'r', 'o', 'l', 'l', 'L', 'o', 'c', 'k'];
            assert(name@ =~= seq!['S', 'c', 'r', 'o', 'l', 'l', 'L', 'o', 'c', 'k']);
            if chars_equal(c, &name) { Some(KeyCode::ScrollLock) } else { None }
        } else if c[1] == 'h' {
            let name: [char; 10] = ['S', 'h', 'i', 'f', 't', 'R', 'i', 'g', 'h', 't'];
            assert(name@ =~= seq!['S', 'h', 'i', 'f', 't', 'R', 'i', 'g', 'h', 't']);
            if chars_equal(c, &name) { Some(KeyCode::ShiftRight) } else { None }
        } else if c[1] == 'r' {
            let name: [char; 10] = ['A', 'r', 'r', 'o', 'w', 'R', 'i', 'g', 'h', 't'];
            assert(name@ =~= seq!['A', 'r', 'r', 'o', 'w', 'R', 'i', 'g', 'h', 't']);
            if chars_equal(c, &name) { Some(KeyCode::ArrowRight) } else { None }
        } else if c[1] == 'u' {
            let name: [char; 10] = ['S', 'u', 'p', 'e', 'r', 'R', 'i', 'g', 'h', 't'];
            assert(name@ =~= seq!['S', 'u', 'p', 'e', 'r', 'R', 'i', 'g', 'h', 't']);
            if chars_equal(c, &name) { Some(KeyCode::SuperRight) } else { None }
        } else {
            None
        }
    } else if c.len() == 11 {
        if c[0] == 'B' {
            let name: [char; 11] = ['B', 'r', 'a', 'c', 'k', 'e', 't', 'L', 'e', 'f', 't'];
            assert(name@ =~= seq!['B', 'r', 'a', 'c', 'k', 'e', 't', 'L', 'e', 'f', 't']);
            if chars_equal(c, &name) { Some(KeyCode::BracketLeft) } else { None }
        } else if c[0] == 'C' {
            let name: [char; 11] = ['C', 'o', 'n', 't', 'r', 'o', 'l', 'L', 'e', 'f', 't'];
            assert(name@ =~= seq!['C', 'o', 'n', 't', 'r', 'o', 'l', 'L', 'e', 'f', 't']);
            if chars_equal(c, &name) { Some(KeyCode::ControlLeft) } else { None }
        } else if c[0] == 'N' {
            let name: [char; 11] = ['N', 'u', 'm', 'p', 'a', 'd', 'E', 'n', 't', 'e', 'r'];
            assert(name@ =~= seq!['N', 'u', 'm', 'p', 'a', 'd', 'E', 'n', 't', 'e', 'r']);
            if chars_equal(c, &name) { Some(KeyCode::NumpadEnter) } else { None }
        } else if c[0] == 'P' {
            let name: [char; 11] = ['P', 'r', 'i', 'n', 't', 'S', 'c', 'r', 'e', 'e', 'n'];
            assert(name@ =~= seq!['P', 'r', 'i', 'n', 't', 'S', 'c', 'r', 'e', 'e', 'n']);
            if chars_equal(c, &name) { Some(KeyCode::PrintScreen) } else { None }
        } else {
            None
        }
    } else if c.len() == 12 {
        if c[0] == 'B' {
            let name: [char; 12] = ['B', 'r', 'a', 'c', 'k', 'e', 't', 'R', 'i', 'g', 'h', 't'];
            assert(name@ =~= seq!['B', 'r', 'a', 'c', 'k', 'e', 't', 'R', 'i', 'g', 'h', 't']);
            if chars_equal(c, &name) { Some(KeyCode::BracketRight) } else { None }
        } else if c[0] == 'C' {
            let name: [char; 12] = ['C', 'o', 'n', 't', 'r', 'o', 'l', 'R', 'i', 'g', 'h', 't'];
            assert(name@ =~= seq!['C', 'o', 'n', 't', 'r', 'o', 'l', 'R', 'i', 'g', 'h', 't']);
            if chars_equal(c, &name) { Some(KeyCode::ControlRight) } else { None }
        } else if c[0] == 'N' {
            let name: [char; 12] = ['N', 'u', 'm', 'p', 'a', 'd', 'D', 'i', 'v', 'i', 'd', 'e'];
            assert(name@ =~= seq!['N', 'u', 'm', 'p', 'a', 'd', 'D', 'i', 'v', 'i', 'd', 'e']);
            if chars_equal(c, &name) { Some(KeyCode::NumpadDivide) } else { None }
        } else {
            None
        }
    } else if c.len() == 13 {
        let name: [char; 13] = ['N', 'u', 'm', 'p', 'a', 'd', 'D', 'e', 'c', 'i', 'm', 'a', 'l'];
        assert(name@ =~= seq!['N', 'u', 'm', 'p', 'a', 'd', 'D', 'e', 'c', 'i', 'm', 'a', 'l']);
        if chars_equal(c, &name) { Some(KeyCode::NumpadDecimal) } else { None }
    } else if c.len() == 14 {
        if c[6] == 'M' {
            let name: [char; 14] = ['N', 'u', 'm', 'p', 'a', 'd', 'M', 'u', 'l', 't', 'i', 'p', 'l', 'y'];
            assert(name@ =~= seq!['N', 'u', 'm', 'p', 'a', 'd', 'M', 'u', 'l', 't', 'i', 'p', 'l', 'y']);
            if chars_equal(c, &name) { Some(KeyCode::NumpadMultiply) } else { None }
        } else if c[6] == 'S' {
            let name: [char; 14] = ['N', 'u', 'm', 'p', 'a', 'd', 'S', 'u', 'b', 't', 'r', 'a', 'c', 't'];
            assert(name@ =~= seq!['N', 'u', 'm', 'p', 'a', 'd', 'S', 'u', 'b', 't', 'r', 'a', 'c', 't']);
            if chars_equal(c, &name) { Some(KeyCode::NumpadSubtract) } else { None }
        } else {
            None
        }
    } else {
        None
    }
}

proof fn lemma_shape_Backquote()
    ensures
        key_by_shape(seq!['B', 'a', 'c', 'k', 'q', 'u', 'o', 't', 'e']) == Some(KeyCode::Backquote),
{
    let s = seq!['B', 'a', 'c', 'k', 'q', 'u', 'o', 't', 'e'];
    assert(s.len() == 9);
}

proof fn lemma_shape_Backslash()
    ensures
        key_by_shape(seq!['B', 'a', 'c', 'k', 's', 'l', 'a', 's', 'h']) == Some(KeyCode::Backslash),
{
    let s = seq!['B', 'a', 'c', 'k', 's', 'l', 'a', 's', 'h'];
    assert(s.len() == 9);
}

proof fn lemma_shape_BracketLeft()
    ensures
        key_by_shape(seq!['B', 'r', 'a', 'c', 'k', 'e', 't', 'L', 'e', 'f', 't']) == Some(KeyCode::BracketLeft),
{
    let s = seq!['B', 'r', 'a', 'c', 'k', 'e', 't', 'L', 'e', 'f', 't'];
    assert(s.len() == 11);
}

proof fn lemma_shape_BracketRight()
    ensures
        key_by_shape(seq!['B', 'r', 'a', 'c', 'k', 'e', 't', 'R', 'i', 'g', 'h', 't']) == Some(KeyCode::BracketRight),
{
    let s = seq!['B', 'r', 'a', 'c', 'k', 'e', 't', 'R', 'i', 'g', 'h', 't'];
    assert(s.len() == 12);
}

proof fn lemma_shape_Comma()
    ensures
        key_by_shape(seq!['C', 'o', 'm', 'm', 'a']) == Some(KeyCode::Comma),
{
    let s = seq!['C', 'o', 'm', 'm', 'a'];
    assert(s.len() == 5);
}

proof fn lemma_shape_Digit0()
    ensures
        key_by_shape(seq!['D', 'i', 'g', 'i', 't', '0']) == Some(KeyCode::Digit0),
{
    let s = seq!['D', 'i', 'g', 'i', 't', '0'];
    assert(s.len() == 6);
}

proof fn lemma_shape_Digit1()
    ensures
        key_by_shape(seq!['D', 'i', 'g', 'i', 't', '1']) == Some(KeyCode::Digit1),
{
    let s = seq!['D', 'i', 'g', 'i', 't', '1'];
    assert(s.len() == 6);
}

proof fn lemma_shape_Digit2()
    ensures
        key_by_shape(seq!['D', 'i', 'g', 'i', 't', '2']) == Some(KeyCode::Digit2),
{
    let s = seq!['D', 'i', 'g', 'i', 't', '2'];
    assert(s.len() == 6);
}

proof fn lemma_shape_Digit3()
    ensures
        key_by_shape(seq!['D', 'i', 'g', 'i', 't', '3']) == Some(KeyCode::Digit3),
{
    let s = seq!['D', 'i', 'g', 'i', 't', '3'];
    assert(s.len() == 6);
}

proof fn lemma_shape_Digit4()
    ensures
        key_by_shape(seq!['D', 'i', 'g', 'i', 't', '4']) == Some(KeyCode::Digit4),
{
    let s = seq!['D', 'i', 'g', 'i', 't', '4'];
    assert(s.len() == 6);
}

proof fn lemma_shape_Digit5()
    ensures
        key_by_shape(seq!['D', 'i', 'g', 'i', 't', '5']) == Some(KeyCode::Digit5),
{
    let s = seq!['D', 'i', 'g', 'i', 't', '5'];
    assert(s.len() == 6);
}

proof fn lemma_shape_Digit6()
    ensures
        key_by_shape(seq!['D', 'i', 'g', 'i', 't', '6']) == Some(KeyCode::Digit6),
{
    let s = seq!['D', 'i', 'g', 'i', 't', '6'];
    assert(s.len() == 6);
}

proof fn lemma_shape_Digit7()
    ensures
        key_by_shape(seq!['D', 'i', 'g', 'i', 't', '7']) == Some(KeyCode::Digit7),
{
    let s = seq!['D', 'i', 'g', 'i', 't', '7'];
    assert(s.len() == 6);
}

proof fn lemma_shape_Digit8()
    ensures
        key_by_shape(seq!['D', 'i', 'g', 'i', 't', '8']) == Some(KeyCode::Digit8),
{
    let s = seq!['D', 'i', 'g', 'i', 't', '8'];
    assert(s.len() == 6);
}

proof fn lemma_shape_Digit9()
    ensures
        key_by_shape(seq!['D', 'i', 'g', 'i', 't', '9']) == Some(KeyCode::Digit9),
{
    let s = seq!['D', 'i', 'g', 'i', 't', '9'];
    assert(s.len() == 6);
}

proof fn lemma_shape_Equal()
    ensures
        key_by_shape(seq!['E', 'q', 'u', 'a', 'l']) == Some(KeyCode::Equal),
{
    let s = seq!['E', 'q', 'u', 'a', 'l'];
    assert(s.len() == 5);
}

proof fn lemma_shape_KeyA()
    ensures
        key_by_shape(seq!['K', 'e', 'y', 'A']) == Some(KeyCode::KeyA),
{
    let s = seq!['K', 'e', 'y', 'A'];
    assert(s.len() == 4);
}

proof fn lemma_shape_KeyB()
    ensures
        key_by_shape(seq!['K', 'e', 'y', 'B']) == Some(KeyCode::KeyB),
{
    let s = seq!['K', 'e', 'y', 'B'];
    assert(s.len() == 4);
}

proof fn lemma_shape_KeyC()
    ensures
        key_by_shape(seq!['K', 'e', 'y', 'C']) == Some(KeyCode::KeyC),
{
    let s = seq!['K', 'e', 'y', 'C'];
    assert(s.len() == 4);
}

proof fn lemma_shape_KeyD()
    ensures
        key_by_shape(seq!['K', 'e', 'y', 'D']) == Some(KeyCode::KeyD),
{
    let s = seq!['K', 'e', 'y', 'D'];
    assert(s.len() == 4);
}

proof fn lemma_shape_KeyE()
    ensures
        key_by_shape(seq!['K', 'e', 'y', 'E']) == Some(KeyCode::KeyE),
{
    let s = seq!['K', 'e', 'y', 'E'];
    assert(s.len() == 4);
}

proof fn lemma_shape_KeyF()
    ensures
        key_by_shape(seq!['K', 'e', 'y', 'F']) == Some(KeyCode::KeyF),
{
    let s = seq!['K', 'e', 'y', 'F'];
    assert(s.len() == 4);
}

proof fn lemma_shape_KeyG()
    ensures
        key_by_shape(seq!['K', 'e', 'y', 'G']) == Some(KeyCode::KeyG),
{
    let s = seq!['K', 'e', 'y', 'G'];
    assert(s.len() == 4);
}

proof fn lemma_shape_KeyH()
    ensures
        key_by_shape(seq!['K', 'e', 'y', 'H']) == Some(KeyCode::KeyH),
{
    let s = seq!['K', 'e', 'y', 'H'];
    assert(s.len() == 4);
}

proof fn lemma_shape_KeyI()
    ensures
        key_by_shape(seq!['K', 'e', 'y', 'I']) == Some(KeyCode::KeyI),
{
    let s = seq!['K', 'e', 'y', 'I'];
    assert(s.len() == 4);
}

proof fn lemma_shape_KeyJ()
    ensures
        key_by_shape(seq!['K', 'e', 'y', 'J']) == Some(KeyCode::KeyJ),
{
    let s = seq!['K', 'e', 'y', 'J'];
    assert(s.len() == 4);
}

proof fn lemma_shape_KeyK()
    ensures
        key_by_shape(seq!['K', 'e', 'y', 'K']) == Some(KeyCode::KeyK),
{
    let s = seq!['K', 'e', 'y', 'K'];
    assert(s.len() == 4);
}

proof fn lemma_shape_KeyL()
    ensures
        key_by_shape(seq!['K', 'e', 'y', 'L']) == Some(KeyCode::KeyL),
{
    let s = seq!['K', 'e', 'y', 'L'];
    assert(s.len() == 4);
}

proof fn lemma_shape_KeyM()
    ensures
        key_by_shape(seq!['K', 'e', 'y', 'M']) == Some(KeyCode::KeyM),
{
    let s = seq!['K', 'e', 'y', 'M'];
    assert(s.len() == 4);
}

proof fn lemma_shape_KeyN()
    ensures
        key_by_shape(seq!['K', 'e', 'y', 'N']) == Some(KeyCode::KeyN),
{
    let s = seq!['K', 'e', 'y', 'N'];
    assert(s.len() == 4);
}

proof fn lemma_shape_KeyO()
    ensures
        key_by_shape(seq!['K', 'e', 'y', 'O']) == Some(KeyCode::KeyO),
{
    let s = seq!['K', 'e', 'y', 'O'];
    assert(s.len() == 4);
}

proof fn lemma_shape_KeyP()
    ensures
        key_by_shape(seq!['K', 'e', 'y', 'P']) == Some(KeyCode::KeyP),
{
    let s = seq!['K', 'e', 'y', 'P'];
    assert(s.len() == 4);
}

proof fn lemma_shape_KeyQ()
    ensures
        key_by_shape(seq!['K', 'e', 'y', 'Q']) == Some(KeyCode::KeyQ),
{
    let s = seq!['K', 'e', 'y', 'Q'];
    assert(s.len() == 4);
}

proof fn lemma_shape_KeyR()
    ensures
        key_by_shape(seq!['K', 'e', 'y', 'R']) == Some(KeyCode::KeyR),
{
    let s = seq!['K', 'e', 'y', 'R'];
    assert(s.len() == 4);
}

proof fn lemma_shape_KeyS()
    ensures
        key_by_shape(seq!['K', 'e', 'y', 'S']) == Some(KeyCode::KeyS),
{
    let s = seq!['K', 'e', 'y', 'S'];
    assert(s.len() == 4);
}

proof fn lemma_shape_KeyT()
    ensures
        key_by_shape(seq!['K', 'e', 'y', 'T']) == Some(KeyCode::KeyT),
{
    let s = seq!['K', 'e', 'y', 'T'];
    assert(s.len() == 4);
}

proof fn lemma_shape_KeyU()
    ensures
        key_by_shape(seq!['K', 'e', 'y', 'U']) == Some(KeyCode::KeyU),
{
    let s = seq!['K', 'e', 'y', 'U'];
    assert(s.len() == 4);
}

proof fn lemma_shape_KeyV()
    ensures
        key_by_shape(seq!['K', 'e', 'y', 'V']) == Some(KeyCode::KeyV),
{
    let s = seq!['K', 'e', 'y', 'V'];
    assert(s.len() == 4);
}

proof fn lemma_shape_KeyW()
    ensures
        key_by_shape(seq!['K', 'e', 'y', 'W']) == Some(KeyCode::KeyW),
{
    let s = seq!['K', 'e', 'y', 'W'];
    assert(s.len() == 4);
}

proof fn lemma_shape_KeyX()
    ensures
        key_by_shape(seq!['K', 'e', 'y', 'X']) == Some(KeyCode::KeyX),
{
    let s = seq!['K', 'e', 'y', 'X'];
    assert(s.len() == 4);
}

proof fn lemma_shape_KeyY()
    ensures
        key_by_shape(seq!['K', 'e', 'y', 'Y']) == Some(KeyCode::KeyY),
{
    let s = seq!['K', 'e', 'y', 'Y'];
    assert(s.len() == 4);
}

proof fn lemma_shape_KeyZ()
    ensures
        key_by_shape(seq!['K', 'e', 'y', 'Z']) == Some(KeyCode::KeyZ),
{
    let s = seq!['K', 'e', 'y', 'Z'];
    assert(s.len() == 4);
}

proof fn lemma_shape_Minus()
    ensures
        key_by_shape(seq!['M', 'i', 'n', 'u', 's']) == Some(KeyCode::Minus),
{
    let s = seq!['M', 'i', 'n', 'u', 's'];
    assert(s.len() == 5);
}

proof fn lemma_shape_Period()
    ensures
        key_by_shape(seq!['P', 'e', 'r', 'i', 'o', 'd']) == Some(KeyCode::Period),
{
    let s = seq!['P', 'e', 'r', 'i', 'o', 'd'];
    assert(s.len() == 6);
}

proof fn lemma_shape_Quote()
    ensures
        key_by_shape(seq!['Q', 'u', 'o', 't', 'e']) == Some(KeyCode::Quote),
{
    let s = seq!['Q', 'u', 'o', 't', 'e'];
    assert(s.len() == 5);
}

proof fn lemma_shape_Semicolon()
    ensures
        key_by_shape(seq!['S', 'e', 'm', 'i', 'c', 'o', 'l', 'o', 'n']) == Some(KeyCode::Semicolon),
{
    let s = seq!['S', 'e', 'm', 'i', 'c', 'o', 'l', 'o', 'n'];
    assert(s.len() == 9);
}

proof fn lemma_shape_Slash()
    ensures
        key_by_shape(seq!['S', 'l', 'a', 's', 'h']) == Some(KeyCode::Slash),
{
    let s = seq!['S', 'l', 'a', 's', 'h'];
    assert(s.len() == 5);
}

proof fn lemma_shape_AltLeft()
    ensures
        key_by_shape(seq!['A', 'l', 't', 'L', 'e', 'f', 't']) == Some(KeyCode::AltLeft),
{
    let s = seq!['A', 'l', 't', 'L', 'e', 'f', 't'];
    assert(s.len() == 7);
}

proof fn lemma_shape_AltRight()
    ensures
        key_by_shape(seq!['A', 'l', 't', 'R', 'i', 'g', 'h', 't']) == Some(KeyCode::AltRight),
{
    let s = seq!['A', 'l', 't', 'R', 'i', 'g', 'h', 't'];
    assert(s.len() == 8);
}

proof fn lemma_shape_Backspace()
    ensures
        key_by_shape(seq!['B', 'a', 'c', 'k', 's', 'p', 'a', 'c', 'e']) == Some(KeyCode::Backspace),
{
    let s = seq!['B', 'a', 'c', 'k', 's', 'p', 'a', 'c', 'e'];
    assert(s.len() == 9);
}

proof fn lemma_shape_CapsLock()
    ensures
        key_by_shape(seq!['C', 'a', 'p', 's', 'L', 'o', 'c', 'k']) == Some(KeyCode::CapsLock),
{
    let s = seq!['C', 'a', 'p', 's', 'L', 'o', 'c', 'k'];
    assert(s.len() == 8);
}

proof fn lemma_shape_ControlLeft()
    ensures
        key_by_shape(seq!['C', 'o', 'n', 't', 'r', 'o', 'l', 'L', 'e', 'f', 't']) == Some(KeyCode::ControlLeft),
{
    let s = seq!['C', 'o', 'n', 't', 'r', 'o', 'l', 'L', 'e', 'f', 't'];
    assert(s.len() == 11);
}

proof fn lemma_shape_ControlRight()
    ensures
        key_by_shape(seq!['C', 'o', 'n', 't', 'r', 'o', 'l', 'R', 'i', 'g', 'h', 't']) == Some(KeyCode::ControlRight),
{
    let s = seq!['C', 'o', 'n', 't', 'r', 'o', 'l', 'R', 'i', 'g', 'h', 't'];
    assert(s.len() == 12);
}

proof fn lemma_shape_Enter()
    ensures
        key_by_shape(seq!['E', 'n', 't', 'e', 'r']) == Some(KeyCode::Enter),
{
    let s = seq!['E', 'n', 't', 'e', 'r'];
    assert(s.len() == 5);
}

proof fn lemma_shape_SuperLeft()
    ensures
        key_by_shape(seq!['S', 'u', 'p', 'e', 'r', 'L', 'e', 'f', 't']) == Some(KeyCode::SuperLeft),
{
    let s = seq!['S', 'u', 'p', 'e', 'r', 'L', 'e', 'f', 't'];
    assert(s.len() == 9);
}

proof fn lemma_shape_SuperRight()
    ensures
        key_by_shape(seq!['S', 'u', 'p', 'e', 'r', 'R', 'i', 'g', 'h', 't']) == Some(KeyCode::SuperRight),
{
    let s = seq!['S', 'u', 'p', 'e', 'r', 'R', 'i', 'g', 'h', 't'];
    assert(s.len() == 10);
}

proof fn lemma_shape_ShiftLeft()
    ensures
        key_by_shape(seq!['S', 'h', 'i', 'f', 't', 'L', 'e', 'f', 't']) == Some(KeyCode::ShiftLeft),
{
    let s = seq!['S', 'h', 'i', 'f', 't', 'L', 'e', 'f', 't'];
    assert(s.len() == 9);
}

proof fn lemma_shape_ShiftRight()
    ensures
        key_by_shape(seq!['S', 'h', 'i', 'f', 't', 'R', 'i', 'g', 'h', 't']) == Some(KeyCode::ShiftRight),
{
    let s = seq!['S', 'h', 'i', 'f', 't', 'R', 'i', 'g', 'h', 't'];
    assert(s.len() == 10);
}

proof fn lemma_shape_Space()
    ensures
        key_by_shape(seq!['S', 'p', 'a', 'c', 'e']) == Some(KeyCode::Space),
{
    let s = seq!['S', 'p', 'a', 'c', 'e'];
    assert(s.len() == 5);
}

proof fn lemma_shape_Tab()
    ensures
        key_by_shape(seq!['T', 'a', 'b']) == Some(KeyCode::Tab),
{
    let s = seq!['T', 'a', 'b'];
    assert(s.len() == 3);
}

proof fn lemma_shape_Delete()
    ensures
        key_by_shape(seq!['D', 'e', 'l', 'e', 't', 'e']) == Some(KeyCode::Delete),
{
    let s = seq!['D', 'e', 'l', 'e', 't', 'e'];
    assert(s.len() == 6);
}

proof fn lemma_shape_End()
    ensures
        key_by_shape(seq!['E', 'n', 'd']) == Some(KeyCode::End),
{
    let s = seq!['E', 'n', 'd'];
    assert(s.len() == 3);
}

proof fn lemma_shape_Home()
    ensures
        key_by_shape(seq!['H', 'o', 'm', 'e']) == Some(KeyCode::Home),
{
    let s = seq!['H', 'o', 'm', 'e'];
    assert(s.len() == 4);
}

proof fn lemma_shape_Insert()
    ensures
        key_by_shape(seq!['I', 'n', 's', 'e', 'r', 't']) == Some(KeyCode::Insert),
{
    let s = seq!['I', 'n', 's', 'e', 'r', 't'];
    assert(s.len() == 6);
}

proof fn lemma_shape_PageDown()
    ensures
        key_by_shape(seq!['P', 'a', 'g', 'e', 'D', 'o', 'w', 'n']) == Some(KeyCode::PageDown),
{
    let s = seq!['P', 'a', 'g', 'e', 'D', 'o', 'w', 'n'];
    assert(s.len() == 8);
}

proof fn lemma_shape_PageUp()
    ensures
        key_by_shape(seq!['P', 'a', 'g', 'e', 'U', 'p']) == Some(KeyCode::PageUp),
{
    let s = seq!['P', 'a', 'g', 'e', 'U', 'p'];
    assert(s.len() == 6);
}

proof fn lemma_shape_ArrowDown()
    ensures
        key_by_shape(seq!['A', 'r', 'r', 'o', 'w', 'D', 'o', 'w', 'n']) == Some(KeyCode::ArrowDown),
{
    let s = seq!['A', 'r', 'r', 'o', 'w', 'D', 'o', 'w', 'n'];
    assert(s.len() == 9);
}

proof fn lemma_shape_ArrowLeft()
    ensures
        key_by_shape(seq!['A', 'r', 'r', 'o', 'w', 'L', 'e', 'f', 't']) == Some(KeyCode::ArrowLeft),
{
    let s = seq!['A', 'r', 'r', 'o', 'w', 'L', 'e', 'f', 't'];
    assert(s.len() == 9);
}

proof fn lemma_shape_ArrowRight()
    ensures
        key_by_shape(seq!['A', 'r', 'r', 'o', 'w', 'R', 'i', 'g', 'h', 't']) == Some(KeyCode::ArrowRight),
{
    let s = seq!['A', 'r', 'r', 'o', 'w', 'R', 'i', 'g', 'h', 't'];
    assert(s.len() == 10);
}

proof fn lemma_shape_ArrowUp()
    ensures
        key_by_shape(seq!['A', 'r', 'r', 'o', 'w', 'U', 'p']) == Some(KeyCode::ArrowUp),
{
    let s = seq!['A', 'r', 'r', 'o', 'w', 'U', 'p'];
    assert(s.len() == 7);
}

proof fn lemma_shape_Numpad0()
    ensures
        key_by_shape(seq!['N', 'u', 'm', 'p', 'a', 'd', '0']) == Some(KeyCode::Numpad0),
{
    let s = seq!['N', 'u', 'm', 'p', 'a', 'd', '0'];
    assert(s.len() == 7);
}

proof fn lemma_shape_Numpad1()
    ensures
        key_by_shape(seq!['N', 'u', 'm', 'p', 'a', 'd', '1']) == Some(KeyCode::Numpad1),
{
    let s = seq!['N', 'u', 'm', 'p', 'a', 'd', '1'];
    assert(s.len() == 7);
}

proof fn lemma_shape_Numpad2()
    ensures
        key_by_shape(seq!['N', 'u', 'm', 'p', 'a', 'd', '2']) == Some(KeyCode::Numpad2),
{
    let s = seq!['N', 'u', 'm', 'p', 'a', 'd', '2'];
    assert(s.len() == 7);
}

proof fn lemma_shape_Numpad3()
    ensures
        key_by_shape(seq!['N', 'u', 'm', 'p', 'a', 'd', '3']) == Some(KeyCode::Numpad3),
{
    let s = seq!['N', 'u', 'm', 'p', 'a', 'd', '3'];
    assert(s.len() == 7);
}

proof fn lemma_shape_Numpad4()
    ensures
        key_by_shape(seq!['N', 'u', 'm', 'p', 'a', 'd', '4']) == Some(KeyCode::Numpad4),
{
    let s = seq!['N', 'u', 'm', 'p', 'a', 'd', '4'];
    assert(s.len() == 7);
}

proof fn lemma_shape_Numpad5()
    ensures
        key_by_shape(seq!['N', 'u', 'm', 'p', 'a', 'd', '5']) == Some(KeyCode::Numpad5),
{
    let s = seq!['N', 'u', 'm', 'p', 'a', 'd', '5'];
    assert(s.len() == 7);
}

proof fn lemma_shape_Numpad6()
    ensures
        key_by_shape(seq!['N', 'u', 'm', 'p', 'a', 'd', '6']) == Some(KeyCode::Numpad6),
{
    let s = seq!['N', 'u', 'm', 'p', 'a', 'd', '6'];
    assert(s.len() == 7);
}

proof fn lemma_shape_Numpad7()
    ensures
        key_by_shape(seq!['N', 'u', 'm', 'p', 'a', 'd', '7']) == Some(KeyCode::Numpad7),
{
    let s = seq!['N', 'u', 'm', 'p', 'a', 'd', '7'];
    assert(s.len() == 7);
}

proof fn lemma_shape_Numpad8()
    ensures
        key_by_shape(seq!['N', 'u', 'm', 'p', 'a', 'd', '8']) == Some(KeyCode::Numpad8),
{
    let s = seq!['N', 'u', 'm', 'p', 'a', 'd', '8'];
    assert(s.len() == 7);
}

proof fn lemma_shape_Numpad9()
    ensures
        key_by_shape(seq!['N', 'u', 'm', 'p', 'a', 'd', '9']) == Some(KeyCode::Numpad9),
{
    let s = seq!['N', 'u', 'm', 'p', 'a', 'd', '9'];
    assert(s.len() == 7);
}

proof fn lemma_shape_NumpadAdd()
    ensures
        key_by_shape(seq!['N', 'u', 'm', 'p', 'a', 'd', 'A', 'd', 'd']) == Some(KeyCode::NumpadAdd),
{
    let s = seq!['N', 'u', 'm', 'p', 'a', 'd', 'A', 'd', 'd'];
    assert(s.len() == 9);
}

proof fn lemma_shape_NumpadDecimal()
    ensures
        key_by_shape(seq!['N', 'u', 'm', 'p', 'a', 'd', 'D', 'e', 'c', 'i', 'm', 'a', 'l']) == Some(KeyCode::NumpadDecimal),
{
    let s = seq!['N', 'u', 'm', 'p', 'a', 'd', 'D', 'e', 'c', 'i', 'm', 'a', 'l'];
    assert(s.len() == 13);
}

proof fn lemma_shape_NumpadDivide()
    ensures
        key_by_shape(seq!['N', 'u', 'm', 'p', 'a', 'd', 'D', 'i', 'v', 'i', 'd', 'e']) == Some(KeyCode::NumpadDivide),
{
    let s = seq!['N', 'u', 'm', 'p', 'a', 'd', 'D', 'i', 'v', 'i', 'd', 'e'];
    assert(s.len() == 12);
}

proof fn lemma_shape_NumpadEnter()
    ensures
        key_by_shape(seq!['N', 'u', 'm', 'p', 'a', 'd', 'E', 'n', 't', 'e', 'r']) == Some(KeyCode::NumpadEnter),
{
    let s = seq!['N', 'u', 'm', 'p', 'a', 'd', 'E', 'n', 't', 'e', 'r'];
    assert(s.len() == 11);
}

proof fn lemma_shape_NumpadMultiply()
    ensures
        key_by_shape(seq!['N', 'u', 'm', 'p', 'a', 'd', 'M', 'u', 'l', 't', 'i', 'p', 'l', 'y']) == Some(KeyCode::NumpadMultiply),
{
    let s = seq!['N', 'u', 'm', 'p', 'a', 'd', 'M', 'u', 'l', 't', 'i', 'p', 'l', 'y'];
    assert(s.len() == 14);
}

proof fn lemma_shape_NumpadSubtract()
    ensures
        key_by_shape(seq!['N', 'u', 'm', 'p', 'a', 'd', 'S', 'u', 'b', 't', 'r', 'a', 'c', 't']) == Some(KeyCode::NumpadSubtract),
{
    let s = seq!['N', 'u', 'm', 'p', 'a', 'd', 'S', 'u', 'b', 't', 'r', 'a', 'c', 't'];
    assert(s.len() == 14);
}

proof fn lemma_shape_Escape()
    ensures
        key_by_shape(seq!['E', 's', 'c', 'a', 'p', 'e']) == Some(KeyCode::Escape),
{
    let s = seq!['E', 's', 'c', 'a', 'p', 'e'];
    assert(s.len() == 6);
}

proof fn lemma_shape_PrintScreen()
    ensures
        key_by_shape(seq!['P', 'r', 'i', 'n', 't', 'S', 'c', 'r', 'e', 'e', 'n']) == Some(KeyCode::PrintScreen),
{
    let s = seq!['P', 'r', 'i', 'n', 't', 'S', 'c', 'r', 'e', 'e', 'n'];
    assert(s.len() == 11);
}

proof fn lemma_shape_ScrollLock()
    ensures
        key_by_shape(seq!['S', 'c', 'r', 'o', 'l', 'l', 'L', 'o', 'c', 'k']) == Some(KeyCode::ScrollLock),
{
    let s = seq!['S', 'c', 'r', 'o', 'l', 'l', 'L', 'o', 'c', 'k'];
    assert(s.len() == 10);
}

proof fn lemma_shape_Pause()
    ensures
        key_by_shape(seq!['P', 'a', 'u', 's', 'e']) == Some(KeyCode::Pause),
{
    let s = seq!['P', 'a', 'u', 's', 'e'];
    assert(s.len() == 5);
}

proof fn lemma_shape_F1()
    ensures
        key_by_shape(seq!['F', '1']) == Some(KeyCode::F1),
{
    let s = seq!['F', '1'];
    assert(s.len() == 2);
}

proof fn lemma_shape_F2()
    ensures
        key_by_shape(seq!['F', '2']) == Some(KeyCode::F2),
{
    let s = seq!['F', '2'];
    assert(s.len() == 2);
}

proof fn lemma_shape_F3()
    ensures
        key_by_shape(seq!['F', '3']) == Some(KeyCode::F3),
{
    let s = seq!['F', '3'];
    assert(s.len() == 2);
}

proof fn lemma_shape_F4()
    ensures
        key_by_shape(seq!['F', '4']) == Some(KeyCode::F4),
{
    let s = seq!['F', '4'];
    assert(s.len() == 2);
}

proof fn lemma_shape_F5()
    ensures
        key_by_shape(seq!['F', '5']) == Some(KeyCode::F5),
{
    let s = seq!['F', '5'];
    assert(s.len() == 2);
}

proof fn lemma_shape_F6()
    ensures
        key_by_shape(seq!['F', '6']) == Some(KeyCode::F6),
{
    let s = seq!['F', '6'];
    assert(s.len() == 2);
}

proof fn lemma_shape_F7()
    ensures
        key_by_shape(seq!['F', '7']) == Some(KeyCode::F7),
{
    let s = seq!['F', '7'];
    assert(s.len() == 2);
}

proof fn lemma_shape_F8()
    ensures
        key_by_shape(seq!['F', '8']) == Some(KeyCode::F8),
{
    let s = seq!['F', '8'];
    assert(s.len() == 2);
}

proof fn lemma_shape_F9()
    ensures
        key_by_shape(seq!['F', '9']) == Some(KeyCode::F9),
{
    let s = seq!['F', '9'];
    assert(s.len() == 2);
}

proof fn lemma_shape_F10()
    ensures
        key_by_shape(seq!['F', '1', '0']) == Some(KeyCode::F10),
{
    let s = seq!['F', '1', '0'];
    assert(s.len() == 3);
}

proof fn lemma_shape_F11()
    ensures
        key_by_shape(seq!['F', '1', '1']) == Some(KeyCode::F11),
{
    let s = seq!['F', '1', '1'];
    assert(s.len() == 3);
}

proof fn lemma_shape_F12()
    ensures
        key_by_shape(seq!['F', '1', '2']) == Some(KeyCode::F12),
{
    let s = seq!['F', '1', '2'];
    assert(s.len() == 3);
}

proof fn lemma_shape_F13()
    ensures
        key_by_shape(seq!['F', '1', '3']) == Some(KeyCode::F13),
{
    let s = seq!['F', '1', '3'];
    assert(s.len() == 3);
}

proof fn lemma_shape_F14()
    ensures
        key_by_shape(seq!['F', '1', '4']) == Some(KeyCode::F14),
{
    let s = seq!['F', '1', '4'];
    assert(s.len() == 3);
}

proof fn lemma_shape_F15()
    ensures
        key_by_shape(seq!['F', '1', '5']) == Some(KeyCode::F15),
{
    let s = seq!['F', '1', '5'];
    assert(s.len() == 3);
}

proof fn lemma_shape_F16()
    ensures
        key_by_shape(seq!['F', '1', '6']) == Some(KeyCode::F16),
{
    let s = seq!['F', '1', '6'];
    assert(s.len() == 3);
}

proof fn lemma_shape_F17()
    ensures
        key_by_shape(seq!['F', '1', '7']) == Some(KeyCode::F17),
{
    let s = seq!['F', '1', '7'];
    assert(s.len() == 3);
}

proof fn lemma_shape_F18()
    ensures
        key_by_shape(seq!['F', '1', '8']) == Some(KeyCode::F18),
{
    let s = seq!['F', '1', '8'];
    assert(s.len() == 3);
}

proof fn lemma_shape_F19()
    ensures
        key_by_shape(seq!['F', '1', '9']) == Some(KeyCode::F19),
{
    let s = seq!['F', '1', '9'];
    assert(s.len() == 3);
}

proof fn lemma_shape_F20()
    ensures
        key_by_shape(seq!['F', '2', '0']) == Some(KeyCode::F20),
{
    let s = seq!['F', '2', '0'];
    assert(s.len() == 3);
}

proof fn lemma_shape_F21()
    ensures
        key_by_shape(seq!['F', '2', '1']) == Some(KeyCode::F21),
{
    let s = seq!['F', '2', '1'];
    assert(s.len() == 3);
}

proof fn lemma_shape_F22()
    ensures
        key_by_shape(seq!['F', '2', '2']) == Some(KeyCode::F22),
{
    let s = seq!['F', '2', '2'];
    assert(s.len() == 3);
}

proof fn lemma_shape_F23()
    ensures
        key_by_shape(seq!['F', '2', '3']) == Some(KeyCode::F23),
{
    let s = seq!['F', '2', '3'];
    assert(s.len() == 3);
}

proof fn lemma_shape_F24()
    ensures
        key_by_shape(seq!['F', '2', '4']) == Some(KeyCode::F24),
{
    let s = seq!['F', '2', '4'];
    assert(s.len() == 3);
}

/// Every stored name finds its own key by shape.
proof fn lemma_shape_finds_key(key: KeyCode)
    requires
        key_name(key) is Some,
    ensures
        key_by_shape(key_name(key).unwrap()) == Some(key),
{
    match key {
        KeyCode::Backquote => lemma_shape_Backquote(),
        KeyCode::Backslash => lemma_shape_Backslash(),
        KeyCode::BracketLeft => lemma_shape_BracketLeft(),
        KeyCode::BracketRight => lemma_shape_BracketRight(),
        KeyCode::Comma => lemma_shape_Comma(),
        KeyCode::Digit0 => lemma_shape_Digit0(),
        KeyCode::Digit1 => lemma_shape_Digit1(),
        KeyCode::Digit2 => lemma_shape_Digit2(),
        KeyCode::Digit3 => lemma_shape_Digit3(),
        KeyCode::Digit4 => lemma_shape_Digit4(),
        KeyCode::Digit5 => lemma_shape_Digit5(),
        KeyCode::Digit6 => lemma_shape_Digit6(),
        KeyCode::Digit7 => lemma_shape_Digit7(),
        KeyCode::Digit8 => lemma_shape_Digit8(),
        KeyCode::Digit9 => lemma_shape_Digit9(),
        KeyCode::Equal => lemma_shape_Equal(),
        KeyCode::KeyA => lemma_shape_KeyA(),
        KeyCode::KeyB => lemma_shape_KeyB(),
        KeyCode::KeyC => lemma_shape_KeyC(),
        KeyCode::KeyD => lemma_shape_KeyD(),
        KeyCode::KeyE => lemma_shape_KeyE(),
        KeyCode::KeyF => lemma_shape_KeyF(),
        KeyCode::KeyG => lemma_shape_KeyG(),
        KeyCode::KeyH => lemma_shape_KeyH(),
        KeyCode::KeyI => lemma_shape_KeyI(),
        KeyCode::KeyJ => lemma_shape_KeyJ(),
        KeyCode::KeyK => lemma_shape_KeyK(),
        KeyCode::KeyL => lemma_shape_KeyL(),
        KeyCode::KeyM => lemma_shape_KeyM(),
        KeyCode::KeyN => lemma_shape_KeyN(),
        KeyCode::KeyO => lemma_shape_KeyO(),
        KeyCode::KeyP => lemma_shape_KeyP(),
        KeyCode::KeyQ => lemma_shape_KeyQ(),
        KeyCode::KeyR => lemma_shape_KeyR(),
        KeyCode::KeyS => lemma_shape_KeyS(),
        KeyCode::KeyT => lemma_shape_KeyT(),
        KeyCode::KeyU => lemma_shape_KeyU(),
        KeyCode::KeyV => lemma_shape_KeyV(),
        KeyCode::KeyW => lemma_shape_KeyW(),
        KeyCode::KeyX => lemma_shape_KeyX(),
        KeyCode::KeyY => lemma_shape_KeyY(),
        KeyCode::KeyZ => lemma_shape_KeyZ(),
        KeyCode::Minus => lemma_shape_Minus(),
        KeyCode::Period => lemma_shape_Period(),
        KeyCode::Quote => lemma_shape_Quote(),
        KeyCode::Semicolon => lemma_shape_Semicolon(),
        KeyCode::Slash => lemma_shape_Slash(),
        KeyCode::AltLeft => lemma_shape_AltLeft(),
        KeyCode::AltRight => lemma_shape_AltRight(),
        KeyCode::Backspace => lemma_shape_Backspace(),
        KeyCode::CapsLock => lemma_shape_CapsLock(),
        KeyCode::ControlLeft => lemma_shape_ControlLeft(),
        KeyCode::ControlRight => lemma_shape_ControlRight(),
        KeyCode::Enter => lemma_shape_Enter(),
        KeyCode::SuperLeft => lemma_shape_SuperLeft(),
        KeyCode::SuperRight => lemma_shape_SuperRight(),
        KeyCode::ShiftLeft => lemma_shape_ShiftLeft(),
        KeyCode::ShiftRight => lemma_shape_ShiftRight(),
        KeyCode::Space => lemma_shape_Space(),
        KeyCode::Tab => lemma_shape_Tab(),
        KeyCode::Delete => lemma_shape_Delete(),
        KeyCode::End => lemma_shape_End(),
        KeyCode::Home => lemma_shape_Home(),
        KeyCode::Insert => lemma_shape_Insert(),
        KeyCode::PageDown => lemma_shape_PageDown(),
        KeyCode::PageUp => lemma_shape_PageUp(),
        KeyCode::ArrowDown => lemma_shape_ArrowDown(),
        KeyCode::ArrowLeft => lemma_shape_ArrowLeft(),
        KeyCode::ArrowRight => lemma_shape_ArrowRight(),
        KeyCode::ArrowUp => lemma_shape_ArrowUp(),
        KeyCode::Numpad0 => lemma_shape_Numpad0(),
        KeyCode::Numpad1 => lemma_shape_Numpad1(),
        KeyCode::Numpad2 => lemma_shape_Numpad2(),
        KeyCode::Numpad3 => lemma_shape_Numpad3(),
        KeyCode::Numpad4 => lemma_shape_Numpad4(),
        KeyCode::Numpad5 => lemma_shape_Numpad5(),
        KeyCode::Numpad6 => lemma_shape_Numpad6(),
        KeyCode::Numpad7 => lemma_shape_Numpad7(),
        KeyCode::Numpad8 => lemma_shape_Numpad8(),
        KeyCode::Numpad9 => lemma_shape_Numpad9(),
        KeyCode::NumpadAdd => lemma_shape_NumpadAdd(),
        KeyCode::NumpadDecimal => lemma_shape_NumpadDecimal(),
        KeyCode::NumpadDivide => lemma_shape_NumpadDivide(),
        KeyCode::NumpadEnter => lemma_shape_NumpadEnter(),
        KeyCode::NumpadMultiply => lemma_shape_NumpadMultiply(),
        KeyCode::NumpadSubtract => lemma_shape_NumpadSubtract(),
        KeyCode::Escape => lemma_shape_Escape(),
        KeyCode::PrintScreen => lemma_shape_PrintScreen(),
        KeyCode::ScrollLock => lemma_shape_ScrollLock(),
        KeyCode::Pause => lemma_shape_Pause(),
        KeyCode::F1 => lemma_shape_F1(),
        KeyCode::F2 => lemma_shape_F2(),
        KeyCode::F3 => lemma_shape_F3(),
        KeyCode::F4 => lemma_shape_F4(),
        KeyCode::F5 => lemma_shape_F5(),
        KeyCode::F6 => lemma_shape_F6(),
        KeyCode::F7 => lemma_shape_F7(),
        KeyCode::F8 => lemma_shape_F8(),
        KeyCode::F9 => lemma_shape_F9(),
        KeyCode::F10 => lemma_shape_F10(),
        KeyCode::F11 => lemma_shape_F11(),
        KeyCode::F12 => lemma_shape_F12(),
        KeyCode::F13 => lemma_shape_F13(),
        KeyCode::F14 => lemma_shape_F14(),
        KeyCode::F15 => lemma_shape_F15(),
        KeyCode::F16 => lemma_shape_F16(),
        KeyCode::F17 => lemma_shape_F17(),
        KeyCode::F18 => lemma_shape_F18(),
        KeyCode::F19 => lemma_shape_F19(),
        KeyCode::F20 => lemma_shape_F20(),
        KeyCode::F21 => lemma_shape_F21(),
        KeyCode::F22 => lemma_shape_F22(),
        KeyCode::F23 => lemma_shape_F23(),
        KeyCode::F24 => lemma_shape_F24(),
        KeyCode::Unnamed => {},
    }
}

/// A key's stored name finds that key again.
pub proof fn lemma_key_name_round_trip(key: KeyCode, other: KeyCode)
    requires
        key_name(key) is Some,
        key_name(other) == key_name(key),
    ensures
        other == key,
{
    lemma_shape_finds_key(key);
    lemma_shape_finds_key(other);
}

} // verus!

verus! {

/// The key whose stored name is `name`, if there is one.
pub open spec fn key_named(name: Seq<char>) -> Option<KeyCode> {
    if exists|key: KeyCode| key_name(key) == Some(name) {
        Some(choose|key: KeyCode| key_name(key) == Some(name))
    } else {
        None
    }
}

/// The key whose stored name is `name`, if any (`None` for any other text).
pub fn key_code_from_name(name: &str) -> (r: Option<KeyCode>)
    ensures
        r == key_named(name@),
{
    let c = chars_of(name);
    let r = key_by_shape_exec(&c);
    proof {
        match r {
            Some(key) => {
                let other = choose|k: KeyCode| key_name(k) == Some(name@);
                lemma_key_name_round_trip(key, other);
            },
            None => {
                assert forall|key: KeyCode| key_name(key) != Some(name@) by {
                    if key_name(key) == Some(name@) {
                        lemma_shape_finds_key(key);
                    }
                }
            },
        }
    }
    r
}

/// A mouse button that a binding can use; `Other` carries the platform's button number.
#[derive(Clone, Copy, Debug, PartialEq, Eq, Structural)]
pub enum MouseButton {
    Left,
    Right,
    Middle,
    Back,
    Forward,
    Other(u16),
}

/// The character of a decimal digit.
pub open spec fn digit_char(d: nat) -> char {
    seq!['0', '1', '2', '3', '4', '5', '6', '7', '8', '9'][d as int]
}

/// Whether a character is an ASCII decimal digit.
pub open spec fn is_digit(c: char) -> bool {
    '0' <= c && c <= '9'
}

/// The decimal form of a number, without sign or leading zeros.
pub open spec fn decimal(n: nat) -> Seq<char>
    decreases n,
{
    if n < 10 {
        seq![digit_char(n)]
    } else {
        decimal(n / 10).push(digit_char(n % 10))
    }
}

/// The value of a string of decimal digits.
pub open spec fn digits_value(s: Seq<char>) -> nat
    decreases s.len(),
{
    if s.len() == 0 {
        0
    } else {
        digits_value(s.drop_last()) * 10 + ((s.last() as int - 48) as nat)
    }
}

/// What `u16::from_str` accepts: an optional `+`, then one or more decimal
/// digits (leading zeros allowed) whose value fits in 16 bits.
pub open spec fn parse_u16(s: Seq<char>) -> Option<u16> {
    parse_u16_digits(unsigned_digits(s))
}

/// The text after an optional leading `+`.
pub open spec fn unsigned_digits(s: Seq<char>) -> Seq<char> {
    if s.len() > 0 && s[0] == '+' {
        s.drop_first()
    } else {
        s
    }
}

/// Whether every character is a decimal digit.
pub open spec fn all_digits(s: Seq<char>) -> bool {
    forall|i: int| 0 <= i < s.len() ==> is_digit(#[trigger] s[i])
}

/// The value of a non-empty digit string that fits in 16 bits.
pub open spec fn parse_u16_digits(digits: Seq<char>) -> Option<u16> {
    if digits.len() > 0 && all_digits(digits) && digits_value(digits) <= 65535 {
        Some(digits_value(digits) as u16)
    } else {
        None
    }
}

/// The prefix of the stored name of a numbered mouse button.
pub open spec fn other_prefix() -> Seq<char> {
    seq!['O', 't', 'h', 'e', 'r', ':']
}

/// The stored name of a mouse button.
pub open spec fn mouse_name(button: MouseButton) -> Seq<char> {
    match button {
        MouseButton::Left => seq!['L', 'e', 'f', 't'],
        MouseButton::Right => seq!['R', 'i', 'g', 'h', 't'],
        MouseButton::Middle => seq!['M', 'i', 'd', 'd', 'l', 'e'],
        MouseButton::Back => seq!['B', 'a', 'c', 'k'],
        MouseButton::Forward => seq!['F', 'o', 'r', 'w', 'a', 'r', 'd'],
        MouseButton::Other(n) => other_prefix() + decimal(n as nat),
    }
}

/// The mouse button that a stored name denotes, if any.
pub open spec fn mouse_named(name: Seq<char>) -> Option<MouseButton> {
    if name == mouse_name(MouseButton::Left) {
        Some(MouseButton::Left)
    } else if name == mouse_name(MouseButton::Right) {
        Some(MouseButton::Right)
    } else if name == mouse_name(MouseButton::Middle) {
        Some(MouseButton::Middle)
    } else if name == mouse_name(MouseButton::Back) {
        Some(MouseButton::Back)
    } else if name == mouse_name(MouseButton::Forward) {
        Some(MouseButton::Forward)
    } else if name.len() >= 6 && name.take(6) == other_prefix() {
        match parse_u16(name.skip(6)) {
            Some(n) => Some(MouseButton::Other(n)),
            None => None,
        }
    } else {
        None
    }
}

fn digit(d: u64) -> (r: char)
    requires
        d < 10,
    ensures
        r == digit_char(d as nat),
{
    let digits = ['0', '1', '2', '3', '4', '5', '6', '7', '8', '9'];
    assert(digits@ =~= seq!['0', '1', '2', '3', '4', '5', '6', '7', '8', '9']);
    digits[d as usize]
}

/// The decimal digits of a number.
pub(crate) fn decimal_chars(n: u64) -> (r: Vec<char>)
    ensures
        r@ == decimal(n as nat),
    decreases n,
{
    if n < 10 {
        let r = vec![digit(n)];
        assert(r@ =~= seq![digit_char(n as nat)]);
        r
    } else {
        let mut r = decimal_chars(n / 10);
        r.push(digit(n % 10));
        r
    }
}

proof fn lemma_digits_value_prefix(s: Seq<char>, j: int)
    requires
        0 <= j <= s.len(),
        forall|i: int| 0 <= i < s.len() ==> is_digit(#[trigger] s[i]),
    ensures
        digits_value(s.take(j)) <= digits_value(s),
    decreases s.len(),
{
    if j < s.len() {
        assert(s.drop_last().take(j) =~= s.take(j));
        lemma_digits_value_prefix(s.drop_last(), j);
    } else {
        assert(s.take(j) =~= s);
    }
}

/// Parses the characters from `start` on as `u16::from_str` does.
fn parse_u16_from(c: &Vec<char>, start: usize) -> (r: Option<u16>)
    requires
        start <= c.len(),
    ensures
        r == parse_u16(c@.skip(start as int)),
{
    let ghost s = c@.skip(start as int);
    let mut i = start;
    if i < c.len() && c[i] == '+' {
        i += 1;
    }
    let ghost digits = c@.skip(i as int);
    assert(digits =~= unsigned_digits(s));
    if i == c.len() {
        return None;
    }
    let first = i;
    let mut v: u32 = 0;
    let mut too_big = false;
    while i < c.len()
        invariant
            first <= i <= c.len(),
            digits == c@.skip(first as int),
            s == c@.skip(start as int),
            digits == unsigned_digits(s),
            forall|k: int| 0 <= k < i - first ==> is_digit(#[trigger] digits[k]),
            !too_big ==> v == digits_value(digits.take(i - first)) && v <= 65535,
            too_big ==> digits_value(digits.take(i - first)) > 65535,
        decreases c.len() - i,
    {
        let ch = c[i];
        if !('0' <= ch && ch <= '9') {
            assert(!is_digit(digits[i - first]));
            return None;
        }
        assert(digits.take(i - first + 1).drop_last() =~= digits.take(i - first));
        if !too_big {
            let d: u32 = (ch as u32) - 48;
            v = v * 10 + d;
            if v > 65535 {
                too_big = true;
            }
        } else {
            assert(digits_value(digits.take(i - first + 1)) >= digits_value(digits.take(i - first)));
        }
        i += 1;
    }
    assert(digits.take(i - first) =~= digits);
    if too_big {
        None
    } else {
        Some(v as u16)
    }
}

/// The stored name of a mouse button: its name, or `Other:` and its number.
pub fn mouse_button_name(button: MouseButton) -> (r: String)
    ensures
        r@ == mouse_name(button),
{
    let chars: Vec<char> = match button {
        MouseButton::Left => vec!['L', 'e', 'f', 't'],
        MouseButton::Right => vec!['R', 'i', 'g', 'h', 't'],
        MouseButton::Middle => vec!['M', 'i', 'd', 'd', 'l', 'e'],
        MouseButton::Back => vec!['B', 'a', 'c', 'k'],
        MouseButton::Forward => vec!['F', 'o', 'r', 'w', 'a', 'r', 'd'],
        MouseButton::Other(n) => {
            let mut v = vec!['O', 't', 'h', 'e', 'r', ':'];
            let digits = decimal_chars(n as u64);
            let ghost prefix = v@;
            let mut i: usize = 0;
            while i < digits.len()
                invariant
                    i <= digits.len(),
                    v@ == prefix + digits@.take(i as int),
                decreases digits.len() - i,
            {
                v.push(digits[i]);
                assert(digits@.take(i + 1) =~= digits@.take(i as int).push(digits@[i as int]));
                i += 1;
            }
            assert(digits@.take(digits.len() as int) =~= digits@);
            v
        },
    };
    assert(chars@ =~= mouse_name(button));
    string_from_chars(&chars)
}

/// The mouse button a stored name denotes, if any.
pub fn mouse_button_from_name(name: &str) -> (r: Option<MouseButton>)
    ensures
        r == mouse_named(name@),
{
    let c = chars_of(name);
    let left: [char; 4] = ['L', 'e', 'f', 't'];
    let right: [char; 5] = ['R', 'i', 'g', 'h', 't'];
    let middle: [char; 6] = ['M', 'i', 'd', 'd', 'l', 'e'];
    let back: [char; 4] = ['B', 'a', 'c', 'k'];
    let forward: [char; 7] = ['F', 'o', 'r', 'w', 'a', 'r', 'd'];
    let other: [char; 6] = ['O', 't', 'h', 'e', 'r', ':'];
    assert(left@ =~= mouse_name(MouseButton::Left));
    assert(right@ =~= mouse_name(MouseButton::Right));
    assert(middle@ =~= mouse_name(MouseButton::Middle));
    assert(back@ =~= mouse_name(MouseButton::Back));
    assert(forward@ =~= mouse_name(MouseButton::Forward));
    assert(other@ =~= other_prefix());
    if chars_equal(&c, &left) {
        Some(MouseButton::Left)
    } else if chars_equal(&c, &right) {
        Some(MouseButton::Right)
    } else if chars_equal(&c, &middle) {
        Some(MouseButton::Middle)
    } else if chars_equal(&c, &back) {
        Some(MouseButton::Back)
    } else if chars_equal(&c, &forward) {
        Some(MouseButton::Forward)
    } else if c.len() >= 6 && c[0] == 'O' && c[1] == 't' && c[2] == 'h' && c[3] == 'e' && c[4] == 'r'
        && c[5] == ':' {
        assert(c@.take(6) =~= other_prefix());
        match parse_u16_from(&c, 6) {
            Some(n) => Some(MouseButton::Other(n)),
            None => None,
        }
    } else {
        assert(!(c@.len() >= 6 && c@.take(6) == other_prefix())) by {
            if c@.len() >= 6 && c@.take(6) == other_prefix() {
                assert(c@.take(6)[0] == 'O');
                assert(c@.take(6)[5] == ':');
                assert(c@.take(6)[1] == 't');
                assert(c@.take(6)[2] == 'h');
                assert(c@.take(6)[3] == 'e');
                assert(c@.take(6)[4] == 'r');
            }
        }
        None
    }
}


proof fn lemma_decimal(n: nat)
    ensures
        decimal(n).len() > 0,
        all_digits(decimal(n)),
        digits_value(decimal(n)) == n,
        is_digit(decimal(n)[0]),
    decreases n,
{
    let table = seq!['0', '1', '2', '3', '4', '5', '6', '7', '8', '9'];
    assert(table[0] == '0' && table[1] == '1' && table[2] == '2' && table[3] == '3' && table[4] == '4');
    assert(table[5] == '5' && table[6] == '6' && table[7] == '7' && table[8] == '8' && table[9] == '9');
    if n < 10 {
        let s = seq![digit_char(n)];
        assert(s.drop_last() =~= Seq::<char>::empty());
        assert(digits_value(Seq::<char>::empty()) == 0);
        assert(s.last() == digit_char(n));
        assert(digit_char(n) as int - 48 == n) by {
            if n == 0 {} else if n == 1 {} else if n == 2 {} else if n == 3 {} else if n == 4 {}
            else if n == 5 {} else if n == 6 {} else if n == 7 {} else if n == 8 {} else {}
        }
        assert(digits_value(s) == n);
    } else {
        lemma_decimal(n / 10);
        let s = decimal(n / 10).push(digit_char(n % 10));
        let d = n % 10;
        assert(digit_char(d) as int - 48 == d) by {
            if d == 0 {} else if d == 1 {} else if d == 2 {} else if d == 3 {} else if d == 4 {}
            else if d == 5 {} else if d == 6 {} else if d == 7 {} else if d == 8 {} else {}
        }
        assert(s.drop_last() =~= decimal(n / 10));
        assert((n / 10) * 10 + n % 10 == n) by (nonlinear_arith);
        assert forall|i: int| 0 <= i < s.len() implies is_digit(#[trigger] s[i]) by {
            if i < s.len() - 1 {
                assert(s[i] == decimal(n / 10)[i]);
            }
        }
        assert(s[0] == decimal(n / 10)[0]);
    }
}

/// A mouse button's stored name denotes that button again.
pub proof fn lemma_mouse_name_round_trip(button: MouseButton)
    ensures
        mouse_named(mouse_name(button)) == Some(button),
{
    let left = mouse_name(MouseButton::Left);
    let right = mouse_name(MouseButton::Right);
    let middle = mouse_name(MouseButton::Middle);
    let back = mouse_name(MouseButton::Back);
    let forward = mouse_name(MouseButton::Forward);
    assert(left[0] == 'L' && right[0] == 'R' && middle[0] == 'M' && back[0] == 'B' && forward[0] == 'F');
    match button {
        MouseButton::Other(n) => {
            lemma_decimal(n as nat);
            let name = mouse_name(button);
            assert(name[0] == 'O');
            assert(name.take(6) =~= other_prefix());
            assert(name.skip(6) =~= decimal(n as nat));
            assert(unsigned_digits(decimal(n as nat)) == decimal(n as nat));
        },
        _ => {},
    }
}

/// Which keys and buttons drive the viewer: framing the mesh, and the orbit,
/// pan and zoom drags (`zoom` unset means the scroll wheel zooms).
#[derive(Clone, Copy, Debug, PartialEq, Eq)]
pub struct KeyBindings {
    pub frame_mesh: KeyCode,
    pub orbit: MouseButton,
    pub pan: MouseButton,
    pub zoom: Option<MouseButton>,
}

impl Default for KeyBindings {
    /// `F` frames the mesh, the left button orbits, the right button pans and
    /// the scroll wheel zooms.
    fn default() -> (r: Self)
        ensures
            r == (KeyBindings {
                frame_mesh: KeyCode::KeyF,
                orbit: MouseButton::Left,
                pan: MouseButton::Right,
                zoom: None,
            }),
    {
        KeyBindings {
            frame_mesh: KeyCode::KeyF,
            orbit: MouseButton::Left,
            pan: MouseButton::Right,
            zoom: None,
        }
    }
}

/// Key bindings in their stored (text) form.
pub struct KeyBindingsConfig {
    pub frame_mesh: String,
    pub orbit: String,
    pub pan: String,
    pub zoom: Option<String>,
}

/// The text of a stored configuration.
pub open spec fn config_view(config: KeyBindingsConfig) -> (Seq<char>, Seq<char>, Seq<char>, Option<Seq<char>>) {
    (
        config.frame_mesh@,
        config.orbit@,
        config.pan@,
        match config.zoom {
            Some(z) => Some(z@),
            None => None,
        },
    )
}

/// The stored form of bindings: present exactly when the framing key has a stored name.
pub open spec fn config_of(bindings: KeyBindings) -> Option<(Seq<char>, Seq<char>, Seq<char>, Option<Seq<char>>)> {
    match key_name(bindings.frame_mesh) {
        Some(key) => Some((
            key,
            mouse_name(bindings.orbit),
            mouse_name(bindings.pan),
            match bindings.zoom {
                Some(z) => Some(mouse_name(z)),
                None => None,
            },
        )),
        None => None,
    }
}

/// The bindings that stored text denotes: present exactly when every name is known.
pub open spec fn bindings_of(config: (Seq<char>, Seq<char>, Seq<char>, Option<Seq<char>>)) -> Option<KeyBindings> {
    match (key_named(config.0), mouse_named(config.1), mouse_named(config.2)) {
        (Some(frame_mesh), Some(orbit), Some(pan)) => match config.3 {
            None => Some(KeyBindings { frame_mesh, orbit, pan, zoom: None }),
            Some(z) => match mouse_named(z) {
                Some(zoom) => Some(KeyBindings { frame_mesh, orbit, pan, zoom: Some(zoom) }),
                None => None,
            },
        },
        _ => None,
    }
}

impl KeyBindings {
    /// The stored form of these bindings; `None` when the framing key has no stored name.
    pub fn to_config(&self) -> (r: Option<KeyBindingsConfig>)
        ensures
            match r {
                Some(config) => config_of(*self) == Some(config_view(config)),
                None => config_of(*self) is None,
            },
    {
        let frame_mesh = match key_code_name(self.frame_mesh) {
            Some(name) => name.to_owned(),
            None => return None,
        };
        let zoom = match self.zoom {
            Some(button) => Some(mouse_button_name(button)),
            None => None,
        };
        Some(KeyBindingsConfig {
            frame_mesh,
            orbit: mouse_button_name(self.orbit),
            pan: mouse_button_name(self.pan),
            zoom,
        })
    }

    /// The bindings that a stored configuration names; `None` when any name is unknown.
    pub fn from_config(config: KeyBindingsConfig) -> (r: Option<KeyBindings>)
        ensures
            r == bindings_of(config_view(config)),
    {
        let frame_mesh = match key_code_from_name(config.frame_mesh.as_str()) {
            Some(key) => key,
            None => return None,
        };
        let orbit = match mouse_button_from_name(config.orbit.as_str()) {
            Some(button) => button,
            None => return None,
        };
        let pan = match mouse_button_from_name(config.pan.as_str()) {
            Some(button) => button,
            None => return None,
        };
        let zoom = match config.zoom {
            Some(button) => match mouse_button_from_name(button.as_str()) {
                Some(button) => Some(button),
                None => return None,
            },
            None => None,
        };
        Some(KeyBindings { frame_mesh, orbit, pan, zoom })
    }
}

/// Storing bindings and reading them back gives the same bindings, whenever
/// they can be stored (their framing key has a stored name).
pub proof fn lemma_config_round_trip(bindings: KeyBindings)
    requires
        config_of(bindings) is Some,
    ensures
        bindings_of(config_of(bindings).unwrap()) == Some(bindings),
{
    let key = bindings.frame_mesh;
    let other = choose|k: KeyCode| key_name(k) == key_name(key);
    assert(key_name(key) == key_name(key));
    lemma_key_name_round_trip(key, other);
    lemma_mouse_name_round_trip(bindings.orbit);
    lemma_mouse_name_round_trip(bindings.pan);
    match bindings.zoom {
        Some(z) => lemma_mouse_name_round_trip(z),
        None => {},
    }
}
} // verus!
