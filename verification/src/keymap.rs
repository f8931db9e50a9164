//! Names of keys and buttons, and taps of them.
//!
//! A binding is written as a readable name such as `2`, `LALT`, `CTRL+1` or
//! `MB2`. Names are written in any case. They are identifiers that stand in the
//! configuration file and are never translated.

use vstd::prelude::*;

use crate::text;

verus! {

/// A key of the keyboard. `Other` is a key that has no name here, known by its
/// code.
#[derive(Clone, Copy, PartialEq, Eq, Debug, Structural)]
pub enum Key {
    Num0,
    Num1,
    Num2,
    Num3,
    Num4,
    Num5,
    Num6,
    Num7,
    Num8,
    Num9,
    KeyA,
    KeyB,
    KeyC,
    KeyD,
    KeyE,
    KeyF,
    KeyG,
    KeyH,
    KeyI,
    KeyJ,
    KeyK,
    KeyL,
    KeyM,
    KeyN,
    KeyO,
    KeyP,
    KeyQ,
    KeyR,
    KeyS,
    KeyT,
    KeyU,
    KeyV,
    KeyW,
    KeyX,
    KeyY,
    KeyZ,
    F1,
    F2,
    F3,
    F4,
    F5,
    F6,
    F7,
    F8,
    F9,
    F10,
    F11,
    F12,
    Alt,
    AltGr,
    Tab,
    Space,
    Return,
    Backspace,
    Delete,
    Insert,
    Home,
    End,
    PageUp,
    PageDown,
    LeftArrow,
    RightArrow,
    UpArrow,
    DownArrow,
    CapsLock,
    ScrollLock,
    NumLock,
    PrintScreen,
    Pause,
    Dot,
    Comma,
    Slash,
    BackSlash,
    Minus,
    Equal,
    LeftBracket,
    RightBracket,
    SemiColon,
    Quote,
    BackQuote,
    Escape,
    ControlLeft,
    MetaLeft,
    Other(u32),
}

/// A button of the mouse.
#[derive(Clone, Copy, PartialEq, Eq, Debug, Structural)]
pub enum Button {
    Left,
    Right,
    Middle,
}

/// One change of the state of a key or a button.
#[derive(Clone, Copy, PartialEq, Eq, Debug, Structural)]
pub enum InputEvent {
    KeyPress(Key),
    KeyRelease(Key),
    ButtonPress(Button),
    ButtonRelease(Button),
}

// ---------------------------------------------------------------------------
// Single keys
// ---------------------------------------------------------------------------

/// The key of a digit.
pub open spec fn digit_key(c: char) -> Key {
    match c {
        '0' => Key::Num0,
        '1' => Key::Num1,
        '2' => Key::Num2,
        '3' => Key::Num3,
        '4' => Key::Num4,
        '5' => Key::Num5,
        '6' => Key::Num6,
        '7' => Key::Num7,
        '8' => Key::Num8,
        _ => Key::Num9,
    }
}

/// The key of a letter in upper case.
pub open spec fn letter_key(c: char) -> Key {
    match c {
        'A' => Key::KeyA,
        'B' => Key::KeyB,
        'C' => Key::KeyC,
        'D' => Key::KeyD,
        'E' => Key::KeyE,
        'F' => Key::KeyF,
        'G' => Key::KeyG,
        'H' => Key::KeyH,
        'I' => Key::KeyI,
        'J' => Key::KeyJ,
        'K' => Key::KeyK,
        'L' => Key::KeyL,
        'M' => Key::KeyM,
        'N' => Key::KeyN,
        'O' => Key::KeyO,
        'P' => Key::KeyP,
        'Q' => Key::KeyQ,
        'R' => Key::KeyR,
        'S' => Key::KeyS,
        'T' => Key::KeyT,
        'U' => Key::KeyU,
        'V' => Key::KeyV,
        'W' => Key::KeyW,
        'X' => Key::KeyX,
        'Y' => Key::KeyY,
        _ => Key::KeyZ,
    }
}

/// The function key with the given number, from one to twelve.
pub open spec fn function_key(n: nat) -> Option<Key> {
    if n == 1 {
        Some(Key::F1)
    } else if n == 2 {
        Some(Key::F2)
    } else if n == 3 {
        Some(Key::F3)
    } else if n == 4 {
        Some(Key::F4)
    } else if n == 5 {
        Some(Key::F5)
    } else if n == 6 {
        Some(Key::F6)
    } else if n == 7 {
        Some(Key::F7)
    } else if n == 8 {
        Some(Key::F8)
    } else if n == 9 {
        Some(Key::F9)
    } else if n == 10 {
        Some(Key::F10)
    } else if n == 11 {
        Some(Key::F11)
    } else if n == 12 {
        Some(Key::F12)
    } else {
        None
    }
}

/// The key that a name in upper case stands for, other than a digit, a letter
/// and a function key.
pub open spec fn special_key(n: Seq<char>) -> Option<Key> {
    if n == "LALT"@ || n == "ALT"@ {
        Some(Key::Alt)
    } else if n == "RALT"@ || n == "ALTGR"@ {
        Some(Key::AltGr)
    } else if n == "TAB"@ {
        Some(Key::Tab)
    } else if n == "SPACE"@ {
        Some(Key::Space)
    } else if n == "ENTER"@ {
        Some(Key::Return)
    } else if n == "BACKSPACE"@ {
        Some(Key::Backspace)
    } else if n == "DEL"@ || n == "DELETE"@ {
        Some(Key::Delete)
    } else if n == "INSERT"@ {
        Some(Key::Insert)
    } else if n == "HOME"@ {
        Some(Key::Home)
    } else if n == "END"@ {
        Some(Key::End)
    } else if n == "PAGEUP"@ {
        Some(Key::PageUp)
    } else if n == "PAGEDOWN"@ {
        Some(Key::PageDown)
    } else if n == "ARROW_LEFT"@ {
        Some(Key::LeftArrow)
    } else if n == "ARROW_RIGHT"@ {
        Some(Key::RightArrow)
    } else if n == "ARROW_UP"@ {
        Some(Key::UpArrow)
    } else if n == "ARROW_DOWN"@ {
        Some(Key::DownArrow)
    } else if n == "CAPSLOCK"@ {
        Some(Key::CapsLock)
    } else if n == "SCROLLLOCK"@ {
        Some(Key::ScrollLock)
    } else if n == "NUMLOCK"@ {
        Some(Key::NumLock)
    } else if n == "PRINTSCREEN"@ {
        Some(Key::PrintScreen)
    } else if n == "PAUSE"@ {
        Some(Key::Pause)
    } else if n == "MENU"@ {
        Some(Key::AltGr)
    } else if n == "PERIOD"@ {
        Some(Key::Dot)
    } else if n == "COMMA"@ {
        Some(Key::Comma)
    } else if n == "SLASH"@ {
        Some(Key::Slash)
    } else if n == "BACKSLASH"@ {
        Some(Key::BackSlash)
    } else if n == "MINUS"@ {
        Some(Key::Minus)
    } else if n == "EQUALS"@ {
        Some(Key::Equal)
    } else if n == "LBRACKET"@ {
        Some(Key::LeftBracket)
    } else if n == "RBRACKET"@ {
        Some(Key::RightBracket)
    } else if n == "SEMICOLON"@ {
        Some(Key::SemiColon)
    } else if n == "APOSTROPHE"@ {
        Some(Key::Quote)
    } else if n == "GRAVE"@ {
        Some(Key::BackQuote)
    } else {
        None
    }
}

/// The key that a single name stands for. The case of the name does not matter.
pub open spec fn key_named(name: Seq<char>) -> Option<Key> {
    let n = text::upper(name);
    if n.len() == 1 && text::is_digit(n[0]) {
        Some(digit_key(n[0]))
    } else if n.len() == 1 && 'A' <= n[0] <= 'Z' {
        Some(letter_key(n[0]))
    } else if n.len() > 0 && n[0] == 'F' && text::number(n.skip(1)) is Some && function_key(
        text::number(n.skip(1))->0,
    ) is Some {
        function_key(text::number(n.skip(1))->0)
    } else {
        special_key(n)
    }
}

fn key_of_digit(c: char) -> (r: Key)
    ensures
        r == digit_key(c),
{
    match c {
        '0' => Key::Num0,
        '1' => Key::Num1,
        '2' => Key::Num2,
        '3' => Key::Num3,
        '4' => Key::Num4,
        '5' => Key::Num5,
        '6' => Key::Num6,
        '7' => Key::Num7,
        '8' => Key::Num8,
        _ => Key::Num9,
    }
}

fn key_of_letter(c: char) -> (r: Key)
    ensures
        r == letter_key(c),
{
    match c {
        'A' => Key::KeyA,
        'B' => Key::KeyB,
        'C' => Key::KeyC,
        'D' => Key::KeyD,
        'E' => Key::KeyE,
        'F' => Key::KeyF,
        'G' => Key::KeyG,
        'H' => Key::KeyH,
        'I' => Key::KeyI,
        'J' => Key::KeyJ,
        'K' => Key::KeyK,
        'L' => Key::KeyL,
        'M' => Key::KeyM,
        'N' => Key::KeyN,
        'O' => Key::KeyO,
        'P' => Key::KeyP,
        'Q' => Key::KeyQ,
        'R' => Key::KeyR,
        'S' => Key::KeyS,
        'T' => Key::KeyT,
        'U' => Key::KeyU,
        'V' => Key::KeyV,
        'W' => Key::KeyW,
        'X' => Key::KeyX,
        'Y' => Key::KeyY,
        _ => Key::KeyZ,
    }
}

fn key_of_function(n: u64) -> (r: Option<Key>)
    ensures
        r == function_key(n as nat),
{
    if n == 1 {
        Some(Key::F1)
    } else if n == 2 {
        Some(Key::F2)
    } else if n == 3 {
        Some(Key::F3)
    } else if n == 4 {
        Some(Key::F4)
    } else if n == 5 {
        Some(Key::F5)
    } else if n == 6 {
        Some(Key::F6)
    } else if n == 7 {
        Some(Key::F7)
    } else if n == 8 {
        Some(Key::F8)
    } else if n == 9 {
        Some(Key::F9)
    } else if n == 10 {
        Some(Key::F10)
    } else if n == 11 {
        Some(Key::F11)
    } else if n == 12 {
        Some(Key::F12)
    } else {
        None
    }
}

fn key_of_special(n: &str) -> (r: Option<Key>)
    ensures
        r == special_key(n@),
{
    if text::same_text(n, "LALT") || text::same_text(n, "ALT") {
        Some(Key::Alt)
    } else if text::same_text(n, "RALT") || text::same_text(n, "ALTGR") {
        Some(Key::AltGr)
    } else if text::same_text(n, "TAB") {
        Some(Key::Tab)
    } else if text::same_text(n, "SPACE") {
        Some(Key::Space)
    } else if text::same_text(n, "ENTER") {
        Some(Key::Return)
    } else if text::same_text(n, "BACKSPACE") {
        Some(Key::Backspace)
    } else if text::same_text(n, "DEL") || text::same_text(n, "DELETE") {
        Some(Key::Delete)
    } else if text::same_text(n, "INSERT") {
        Some(Key::Insert)
    } else if text::same_text(n, "HOME") {
        Some(Key::Home)
    } else if text::same_text(n, "END") {
        Some(Key::End)
    } else if text::same_text(n, "PAGEUP") {
        Some(Key::PageUp)
    } else if text::same_text(n, "PAGEDOWN") {
        Some(Key::PageDown)
    } else if text::same_text(n, "ARROW_LEFT") {
        Some(Key::LeftArrow)
    } else if text::same_text(n, "ARROW_RIGHT") {
        Some(Key::RightArrow)
    } else if text::same_text(n, "ARROW_UP") {
        Some(Key::UpArrow)
    } else if text::same_text(n, "ARROW_DOWN") {
        Some(Key::DownArrow)
    } else if text::same_text(n, "CAPSLOCK") {
        Some(Key::CapsLock)
    } else if text::same_text(n, "SCROLLLOCK") {
        Some(Key::ScrollLock)
    } else if text::same_text(n, "NUMLOCK") {
        Some(Key::NumLock)
    } else if text::same_text(n, "PRINTSCREEN") {
        Some(Key::PrintScreen)
    } else if text::same_text(n, "PAUSE") {
        Some(Key::Pause)
    } else if text::same_text(n, "MENU") {
        Some(Key::AltGr)
    } else if text::same_text(n, "PERIOD") {
        Some(Key::Dot)
    } else if text::same_text(n, "COMMA") {
        Some(Key::Comma)
    } else if text::same_text(n, "SLASH") {
        Some(Key::Slash)
    } else if text::same_text(n, "BACKSLASH") {
        Some(Key::BackSlash)
    } else if text::same_text(n, "MINUS") {
        Some(Key::Minus)
    } else if text::same_text(n, "EQUALS") {
        Some(Key::Equal)
    } else if text::same_text(n, "LBRACKET") {
        Some(Key::LeftBracket)
    } else if text::same_text(n, "RBRACKET") {
        Some(Key::RightBracket)
    } else if text::same_text(n, "SEMICOLON") {
        Some(Key::SemiColon)
    } else if text::same_text(n, "APOSTROPHE") {
        Some(Key::Quote)
    } else if text::same_text(n, "GRAVE") {
        Some(Key::BackQuote)
    } else {
        None
    }
}

/// Reads the name of a single key.
pub fn main_key(name: &str) -> (r: Option<Key>)
    ensures
        r == key_named(name@),
{
    let up = text::to_upper(name);
    let v = text::chars_of(up.as_str());
    if v.len() == 1 {
        let c = v[0];
        if '0' <= c && c <= '9' {
            return Some(key_of_digit(c));
        }
        if 'A' <= c && c <= 'Z' {
            return Some(key_of_letter(c));
        }
    }
    if v.len() > 0 && v[0] == 'F' {
        let rest = text::string_of(&v, 1, v.len());
        proof {
            assert(rest@ =~= up@.skip(1));
        }
        if let Some(n) = text::parse_number(rest.as_str()) {
            let found = key_of_function(n);
            if found.is_some() {
                return found;
            }
        }
    }
    key_of_special(up.as_str())
}

/// The name under which a key is stored.
pub open spec fn key_label(k: Key) -> Option<Seq<char>> {
    match k {
        Key::Num0 => Some("0"@),
        Key::Num1 => Some("1"@),
        Key::Num2 => Some("2"@),
        Key::Num3 => Some("3"@),
        Key::Num4 => Some("4"@),
        Key::Num5 => Some("5"@),
        Key::Num6 => Some("6"@),
        Key::Num7 => Some("7"@),
        Key::Num8 => Some("8"@),
        Key::Num9 => Some("9"@),
        Key::KeyA => Some("A"@),
        Key::KeyB => Some("B"@),
        Key::KeyC => Some("C"@),
        Key::KeyD => Some("D"@),
        Key::KeyE => Some("E"@),
        Key::KeyF => Some("F"@),
        Key::KeyG => Some("G"@),
        Key::KeyH => Some("H"@),
        Key::KeyI => Some("I"@),
        Key::KeyJ => Some("J"@),
        Key::KeyK => Some("K"@),
        Key::KeyL => Some("L"@),
        Key::KeyM => Some("M"@),
        Key::KeyN => Some("N"@),
        Key::KeyO => Some("O"@),
        Key::KeyP => Some("P"@),
        Key::KeyQ => Some("Q"@),
        Key::KeyR => Some("R"@),
        Key::KeyS => Some("S"@),
        Key::KeyT => Some("T"@),
        Key::KeyU => Some("U"@),
        Key::KeyV => Some("V"@),
        Key::KeyW => Some("W"@),
        Key::KeyX => Some("X"@),
        Key::KeyY => Some("Y"@),
        Key::KeyZ => Some("Z"@),
        Key::F1 => Some("F1"@),
        Key::F2 => Some("F2"@),
        Key::F3 => Some("F3"@),
        Key::F4 => Some("F4"@),
        Key::F5 => Some("F5"@),
        Key::F6 => Some("F6"@),
        Key::F7 => Some("F7"@),
        Key::F8 => Some("F8"@),
        Key::F9 => Some("F9"@),
        Key::F10 => Some("F10"@),
        Key::F11 => Some("F11"@),
        Key::F12 => Some("F12"@),
        Key::Alt => Some("LALT"@),
        Key::AltGr => Some("RALT"@),
        Key::Tab => Some("TAB"@),
        Key::Space => Some("SPACE"@),
        Key::Return => Some("ENTER"@),
        Key::Backspace => Some("BACKSPACE"@),
        Key::Delete => Some("DEL"@),
        Key::Insert => Some("INSERT"@),
        Key::Home => Some("HOME"@),
        Key::End => Some("END"@),
        Key::PageUp => Some("PAGEUP"@),
        Key::PageDown => Some("PAGEDOWN"@),
        Key::LeftArrow => Some("ARROW_LEFT"@),
        Key::RightArrow => Some("ARROW_RIGHT"@),
        Key::UpArrow => Some("ARROW_UP"@),
        Key::DownArrow => Some("ARROW_DOWN"@),
        Key::CapsLock => Some("CAPSLOCK"@),
        Key::ScrollLock => Some("SCROLLLOCK"@),
        Key::NumLock => Some("NUMLOCK"@),
        Key::PrintScreen => Some("PRINTSCREEN"@),
        Key::Pause => Some("PAUSE"@),
        Key::Dot => Some("PERIOD"@),
        Key::Comma => Some("COMMA"@),
        Key::Slash => Some("SLASH"@),
        Key::BackSlash => Some("BACKSLASH"@),
        Key::Minus => Some("MINUS"@),
        Key::Equal => Some("EQUALS"@),
        Key::LeftBracket => Some("LBRACKET"@),
        Key::RightBracket => Some("RBRACKET"@),
        Key::SemiColon => Some("SEMICOLON"@),
        Key::Quote => Some("APOSTROPHE"@),
        Key::BackQuote => Some("GRAVE"@),
        _ => None,
    }
}

/// The name under which a key that was pressed is stored. Escape has none: it
/// cancels the capture.
pub fn rdev_key_name(k: Key) -> (r: Option<String>)
    ensures
        text::opt_view(r) == key_label(k),
{
    let s = match k {
        Key::Num0 => "0",
        Key::Num1 => "1",
        Key::Num2 => "2",
        Key::Num3 => "3",
        Key::Num4 => "4",
        Key::Num5 => "5",
        Key::Num6 => "6",
        Key::Num7 => "7",
        Key::Num8 => "8",
        Key::Num9 => "9",
        Key::KeyA => "A",
        Key::KeyB => "B",
        Key::KeyC => "C",
        Key::KeyD => "D",
        Key::KeyE => "E",
        Key::KeyF => "F",
        Key::KeyG => "G",
        Key::KeyH => "H",
        Key::KeyI => "I",
        Key::KeyJ => "J",
        Key::KeyK => "K",
        Key::KeyL => "L",
        Key::KeyM => "M",
        Key::KeyN => "N",
        Key::KeyO => "O",
        Key::KeyP => "P",
        Key::KeyQ => "Q",
        Key::KeyR => "R",
        Key::KeyS => "S",
        Key::KeyT => "T",
        Key::KeyU => "U",
        Key::KeyV => "V",
        Key::KeyW => "W",
        Key::KeyX => "X",
        Key::KeyY => "Y",
        Key::KeyZ => "Z",
        Key::F1 => "F1",
        Key::F2 => "F2",
        Key::F3 => "F3",
        Key::F4 => "F4",
        Key::F5 => "F5",
        Key::F6 => "F6",
        Key::F7 => "F7",
        Key::F8 => "F8",
        Key::F9 => "F9",
        Key::F10 => "F10",
        Key::F11 => "F11",
        Key::F12 => "F12",
        Key::Alt => "LALT",
        Key::AltGr => "RALT",
        Key::Tab => "TAB",
        Key::Space => "SPACE",
        Key::Return => "ENTER",
        Key::Backspace => "BACKSPACE",
        Key::Delete => "DEL",
        Key::Insert => "INSERT",
        Key::Home => "HOME",
        Key::End => "END",
        Key::PageUp => "PAGEUP",
        Key::PageDown => "PAGEDOWN",
        Key::LeftArrow => "ARROW_LEFT",
        Key::RightArrow => "ARROW_RIGHT",
        Key::UpArrow => "ARROW_UP",
        Key::DownArrow => "ARROW_DOWN",
        Key::CapsLock => "CAPSLOCK",
        Key::ScrollLock => "SCROLLLOCK",
        Key::NumLock => "NUMLOCK",
        Key::PrintScreen => "PRINTSCREEN",
        Key::Pause => "PAUSE",
        Key::Dot => "PERIOD",
        Key::Comma => "COMMA",
        Key::Slash => "SLASH",
        Key::BackSlash => "BACKSLASH",
        Key::Minus => "MINUS",
        Key::Equal => "EQUALS",
        Key::LeftBracket => "LBRACKET",
        Key::RightBracket => "RBRACKET",
        Key::SemiColon => "SEMICOLON",
        Key::Quote => "APOSTROPHE",
        Key::BackQuote => "GRAVE",
        _ => return None,
    };
    Some(s.to_string())
}

// ---------------------------------------------------------------------------
// Bindings
// ---------------------------------------------------------------------------

/// The key of a binding, without the modifiers before it.
pub open spec fn binding_key(name: Seq<char>) -> Option<Key> {
    key_named(text::split(name, '+').last())
}

/// The main key of a binding, by which the listener recognises it. Modifiers
/// before it are ignored.
pub fn binding_main_key(name: &str) -> (r: Option<Key>)
    ensures
        r == binding_key(name@),
{
    let parts = text::pieces(name, '+');
    proof {
        assert(text::split(name@, '+').last() == parts@[parts@.len() - 1]@);
    }
    main_key(parts[parts.len() - 1].as_str())
}

/// The modifier that a part of a binding always is.
pub open spec fn plain_modifier(part: Seq<char>) -> Option<Key> {
    let n = text::upper(part);
    if n == "CTRL"@ {
        Some(Key::ControlLeft)
    } else if n == "ALT"@ {
        Some(Key::Alt)
    } else if n == "WIN"@ {
        Some(Key::MetaLeft)
    } else {
        None
    }
}

/// The modifier that a part of a binding is where it stands before the main
/// key; on its own it is a main key itself.
pub open spec fn side_modifier(part: Seq<char>) -> Option<Key> {
    let n = text::upper(part);
    if n == "LALT"@ {
        Some(Key::Alt)
    } else if n == "RALT"@ {
        Some(Key::AltGr)
    } else {
        None
    }
}

/// The position of the main key among the first `k` parts of a binding: the
/// last part that is not always a modifier.
pub open spec fn main_position(parts: Seq<Seq<char>>, k: int) -> Option<int>
    decreases k,
{
    if k <= 0 {
        None
    } else if plain_modifier(parts[k - 1]) is None {
        Some(k - 1)
    } else {
        main_position(parts, k - 1)
    }
}

/// The modifiers among the first `k` parts of a binding whose main key stands
/// at position `main`, in their order.
pub open spec fn modifiers(parts: Seq<Seq<char>>, main: int, k: int) -> Seq<Key>
    decreases k,
{
    if k <= 0 {
        Seq::<Key>::empty()
    } else {
        let before = modifiers(parts, main, k - 1);
        if plain_modifier(parts[k - 1]) is Some {
            before.push(plain_modifier(parts[k - 1])->0)
        } else if k - 1 < main && side_modifier(parts[k - 1]) is Some {
            before.push(side_modifier(parts[k - 1])->0)
        } else {
            before
        }
    }
}

/// Every part is a modifier or the name of a key.
pub open spec fn all_named(parts: Seq<Seq<char>>) -> bool {
    forall|i: int|
        0 <= i < parts.len() ==> plain_modifier(#[trigger] parts[i]) is Some || key_named(
            parts[i],
        ) is Some
}

/// The modifiers and the main key of a binding.
pub open spec fn chord(name: Seq<char>) -> Option<(Seq<Key>, Key)> {
    let parts = text::split(name, '+');
    let n = parts.len() as int;
    if all_named(parts) && main_position(parts, n) is Some {
        let main = main_position(parts, n)->0;
        Some((modifiers(parts, main, n), key_named(parts[main])->0))
    } else {
        None
    }
}

/// What `parse_chord` gives, with the list of modifiers as a sequence.
pub open spec fn chord_view(r: Option<(Vec<Key>, Key)>) -> Option<(Seq<Key>, Key)> {
    match r {
        Some((mods, main)) => Some((mods@, main)),
        None => None,
    }
}

fn as_plain_modifier(part: &str) -> (r: Option<Key>)
    ensures
        r == plain_modifier(part@),
{
    let up = text::to_upper(part);
    let n = up.as_str();
    if text::same_text(n, "CTRL") {
        Some(Key::ControlLeft)
    } else if text::same_text(n, "ALT") {
        Some(Key::Alt)
    } else if text::same_text(n, "WIN") {
        Some(Key::MetaLeft)
    } else {
        None
    }
}

fn as_side_modifier(part: &str) -> (r: Option<Key>)
    ensures
        r == side_modifier(part@),
{
    let up = text::to_upper(part);
    let n = up.as_str();
    if text::same_text(n, "LALT") {
        Some(Key::Alt)
    } else if text::same_text(n, "RALT") {
        Some(Key::AltGr)
    } else {
        None
    }
}

/// Reads a binding of keys: its modifiers and its main key.
pub fn parse_chord(name: &str) -> (r: Option<(Vec<Key>, Key)>)
    ensures
        chord_view(r) == chord(name@),
{
    let parts = text::pieces(name, '+');
    let ghost all = text::split(name@, '+');
    let mut found: Option<(usize, Key)> = None;
    let mut i: usize = 0;
    while i < parts.len()
        invariant
            i <= parts@.len(),
            all == text::views(parts@),
            all == text::split(name@, '+'),
            forall|j: int|
                0 <= j < i ==> plain_modifier(#[trigger] all[j]) is Some || key_named(
                    all[j],
                ) is Some,
            match found {
                Some((p, k)) => main_position(all, i as int) == Some(p as int) && p < i
                    && key_named(all[p as int]) == Some(k),
                None => main_position(all, i as int) is None,
            },
        decreases parts@.len() - i,
    {
        let part = parts[i].as_str();
        proof {
            assert(all[i as int] == part@);
        }
        if as_plain_modifier(part).is_none() {
            match main_key(part) {
                Some(k) => {
                    found = Some((i, k));
                },
                None => {
                    return None;
                },
            }
        }
        i = i + 1;
    }
    match found {
        None => None,
        Some((main, key)) => {
            let mut mods: Vec<Key> = Vec::new();
            let mut j: usize = 0;
            while j < parts.len()
                invariant
                    j <= parts@.len(),
                    all == text::views(parts@),
                    mods@ == modifiers(all, main as int, j as int),
                decreases parts@.len() - j,
            {
                let part = parts[j].as_str();
                proof {
                    assert(all[j as int] == part@);
                }
                if let Some(k) = as_plain_modifier(part) {
                    mods.push(k);
                } else if j < main {
                    if let Some(k) = as_side_modifier(part) {
                        mods.push(k);
                    }
                }
                j = j + 1;
            }
            Some((mods, key))
        },
    }
}

/// The button that a binding stands for.
pub open spec fn button_named(name: Seq<char>) -> Option<Button> {
    let n = text::upper(name);
    if n == "MB1"@ {
        Some(Button::Left)
    } else if n == "MB2"@ {
        Some(Button::Right)
    } else if n == "MB3"@ {
        Some(Button::Middle)
    } else {
        None
    }
}

/// Reads a binding of a mouse button.
pub fn binding_to_button(name: &str) -> (r: Option<Button>)
    ensures
        r == button_named(name@),
{
    let up = text::to_upper(name);
    let n = up.as_str();
    if text::same_text(n, "MB1") {
        Some(Button::Left)
    } else if text::same_text(n, "MB2") {
        Some(Button::Right)
    } else if text::same_text(n, "MB3") {
        Some(Button::Middle)
    } else {
        None
    }
}

/// The name under which a mouse button is stored.
pub open spec fn button_label(b: Button) -> Seq<char> {
    match b {
        Button::Left => "MB1"@,
        Button::Right => "MB2"@,
        Button::Middle => "MB3"@,
    }
}

/// The name under which a mouse button that was pressed is stored.
pub fn mouse_button_name(b: Button) -> (r: String)
    ensures
        r@ == button_label(b),
{
    match b {
        Button::Left => "MB1".to_string(),
        Button::Right => "MB2".to_string(),
        Button::Middle => "MB3".to_string(),
    }
}

// ---------------------------------------------------------------------------
// Taps
// ---------------------------------------------------------------------------

/// The time between a press and its release, in milliseconds.
pub const TAP_DELAY_MS: u64 = 8;

/// What a tap presses and releases.
#[derive(Clone, Copy, PartialEq, Eq, Debug, Structural)]
pub enum TapTarget {
    Nothing,
    Button(Button),
    Key(Key),
}

/// How far a tap has come.
#[derive(Clone, Copy, PartialEq, Eq, Debug, Structural)]
pub enum TapPhase {
    /// So many modifiers are pressed, and the next one is to be pressed.
    Modifiers(usize),
    /// The target is to be pressed.
    Press,
    /// The target was pressed, with this success, and is held for a moment.
    Hold(bool),
    /// The target is to be released; its press had this success.
    Release(bool),
    /// So many modifiers are still pressed, and the last of them is to be
    /// released; the tap had this success.
    Unwind(usize, bool),
    /// The tap is over, with this success.
    Done(bool),
}

/// A tap of a binding: press, a moment's wait, release. Modifiers are pressed
/// one by one before the target and released in reverse order after it; where
/// the press of one fails, those already pressed are released and the tap ends.
#[derive(Debug)]
pub struct Tap {
    pub mods: Vec<Key>,
    pub target: TapTarget,
    pub phase: TapPhase,
}

/// What a tap is about.
pub struct TapView {
    pub mods: Seq<Key>,
    pub target: TapTarget,
    pub phase: TapPhase,
}

impl View for Tap {
    type V = TapView;

    open spec fn view(&self) -> TapView {
        TapView { mods: self.mods@, target: self.target, phase: self.phase }
    }
}

/// What is to be done next for a tap.
#[derive(Clone, Copy, PartialEq, Eq, Debug, Structural)]
pub enum TapStep {
    /// Send this event to the system.
    Send(InputEvent),
    /// Wait for so many milliseconds.
    Wait(u64),
    /// Nothing: the tap is over, with this success.
    Done(bool),
}

pub open spec fn press_of(t: TapTarget) -> InputEvent {
    match t {
        TapTarget::Button(b) => InputEvent::ButtonPress(b),
        TapTarget::Key(k) => InputEvent::KeyPress(k),
        TapTarget::Nothing => arbitrary(),
    }
}

pub open spec fn release_of(t: TapTarget) -> InputEvent {
    match t {
        TapTarget::Button(b) => InputEvent::ButtonRelease(b),
        TapTarget::Key(k) => InputEvent::KeyRelease(k),
        TapTarget::Nothing => arbitrary(),
    }
}

impl TapView {
    /// The phase fits the target and the modifiers.
    pub open spec fn well_formed(self) -> bool {
        &&& match self.phase {
            TapPhase::Modifiers(n) => n < self.mods.len() && self.target is Key,
            TapPhase::Press | TapPhase::Hold(_) | TapPhase::Release(_) => self.target !is Nothing,
            TapPhase::Unwind(n, _) => 1 <= n <= self.mods.len(),
            TapPhase::Done(_) => true,
        }
        &&& self.target is Button ==> self.mods.len() == 0
        &&& self.mods.len() <= usize::MAX
    }

    /// What is to be done next.
    pub open spec fn step(self) -> TapStep {
        match self.phase {
            TapPhase::Modifiers(n) => TapStep::Send(InputEvent::KeyPress(self.mods[n as int])),
            TapPhase::Press => TapStep::Send(press_of(self.target)),
            TapPhase::Hold(_) => TapStep::Wait(TAP_DELAY_MS),
            TapPhase::Release(_) => TapStep::Send(release_of(self.target)),
            TapPhase::Unwind(n, _) => TapStep::Send(InputEvent::KeyRelease(self.mods[n - 1])),
            TapPhase::Done(ok) => TapStep::Done(ok),
        }
    }

    /// The phase in which `n` modifiers are still to be released.
    pub open spec fn unwinding(n: int, ok: bool) -> TapPhase {
        if n <= 0 {
            TapPhase::Done(ok)
        } else {
            TapPhase::Unwind(n as usize, ok)
        }
    }

    /// The tap after its next step was carried out with the given success.
    pub open spec fn after(self, ok: bool) -> TapView {
        let phase = match self.phase {
            TapPhase::Modifiers(n) => if !ok {
                TapView::unwinding(n as int, false)
            } else if n + 1 < self.mods.len() {
                TapPhase::Modifiers((n + 1) as usize)
            } else {
                TapPhase::Press
            },
            TapPhase::Press => TapPhase::Hold(ok),
            TapPhase::Hold(pressed) => TapPhase::Release(pressed),
            TapPhase::Release(pressed) => if self.target is Button {
                TapPhase::Done(pressed && ok)
            } else {
                TapView::unwinding(self.mods.len() as int, pressed)
            },
            TapPhase::Unwind(n, result) => TapView::unwinding(n - 1, result),
            TapPhase::Done(result) => TapPhase::Done(result),
        };
        TapView { phase, ..self }
    }
}

/// The tap of a binding at its start. A name that is no binding gives a tap
/// that is over at once, without success.
pub open spec fn tap_of(name: Seq<char>) -> TapView {
    if button_named(name) is Some {
        TapView {
            mods: Seq::<Key>::empty(),
            target: TapTarget::Button(button_named(name)->0),
            phase: TapPhase::Press,
        }
    } else if chord(name) is Some {
        key_tap((chord(name)->0).0, (chord(name)->0).1)
    } else {
        TapView {
            mods: Seq::<Key>::empty(),
            target: TapTarget::Nothing,
            phase: TapPhase::Done(false),
        }
    }
}

/// The tap of a key with modifiers at its start.
pub open spec fn key_tap(mods: Seq<Key>, main: Key) -> TapView {
    TapView {
        mods,
        target: TapTarget::Key(main),
        phase: if mods.len() > 0 {
            TapPhase::Modifiers(0)
        } else {
            TapPhase::Press
        },
    }
}

/// Begins the tap of a binding.
pub fn tap_binding(name: &str) -> (r: Tap)
    ensures
        r@ == tap_of(name@),
        r@.well_formed(),
{
    if let Some(b) = binding_to_button(name) {
        return Tap { mods: Vec::new(), target: TapTarget::Button(b), phase: TapPhase::Press };
    }
    match parse_chord(name) {
        Some((mods, main)) => {
            let phase = if mods.len() > 0 {
                TapPhase::Modifiers(0)
            } else {
                TapPhase::Press
            };
            Tap { mods, target: TapTarget::Key(main), phase }
        },
        None => Tap { mods: Vec::new(), target: TapTarget::Nothing, phase: TapPhase::Done(false) },
    }
}

impl Tap {
    /// What is to be done next.
    pub fn step(&self) -> (r: TapStep)
        requires
            self@.well_formed(),
        ensures
            r == self@.step(),
    {
        match self.phase {
            TapPhase::Modifiers(n) => TapStep::Send(InputEvent::KeyPress(self.mods[n])),
            TapPhase::Press => match self.target {
                TapTarget::Button(b) => TapStep::Send(InputEvent::ButtonPress(b)),
                TapTarget::Key(k) => TapStep::Send(InputEvent::KeyPress(k)),
                TapTarget::Nothing => TapStep::Done(false),
            },
            TapPhase::Hold(_) => TapStep::Wait(TAP_DELAY_MS),
            TapPhase::Release(_) => match self.target {
                TapTarget::Button(b) => TapStep::Send(InputEvent::ButtonRelease(b)),
                TapTarget::Key(k) => TapStep::Send(InputEvent::KeyRelease(k)),
                TapTarget::Nothing => TapStep::Done(false),
            },
            TapPhase::Unwind(n, _) => TapStep::Send(InputEvent::KeyRelease(self.mods[n - 1])),
            TapPhase::Done(ok) => TapStep::Done(ok),
        }
    }

    /// Goes on after the next step was carried out with the given success.
    pub fn advance(&mut self, ok: bool)
        requires
            old(self)@.well_formed(),
        ensures
            final(self)@ == old(self)@.after(ok),
            final(self)@.well_formed(),
    {
        let phase = match self.phase {
            TapPhase::Modifiers(n) => if !ok {
                if n == 0 {
                    TapPhase::Done(false)
                } else {
                    TapPhase::Unwind(n, false)
                }
            } else if n + 1 < self.mods.len() {
                TapPhase::Modifiers(n + 1)
            } else {
                TapPhase::Press
            },
            TapPhase::Press => TapPhase::Hold(ok),
            TapPhase::Hold(pressed) => TapPhase::Release(pressed),
            TapPhase::Release(pressed) => match self.target {
                TapTarget::Button(_) => TapPhase::Done(pressed && ok),
                _ => if self.mods.len() == 0 {
                    TapPhase::Done(pressed)
                } else {
                    TapPhase::Unwind(self.mods.len(), pressed)
                },
            },
            TapPhase::Unwind(n, result) => if n == 1 {
                TapPhase::Done(result)
            } else {
                TapPhase::Unwind(n - 1, result)
            },
            TapPhase::Done(result) => TapPhase::Done(result),
        };
        self.phase = phase;
    }
}

// ---------------------------------------------------------------------------
// Laws of taps
// ---------------------------------------------------------------------------

impl TapView {
    /// How many steps are left at most.
    pub open spec fn steps_left(self) -> nat {
        let n = self.mods.len();
        match self.phase {
            TapPhase::Modifiers(k) => (2 * n + 4 - k) as nat,
            TapPhase::Press => n + 3,
            TapPhase::Hold(_) => n + 2,
            TapPhase::Release(_) => n + 1,
            TapPhase::Unwind(k, _) => k as nat,
            TapPhase::Done(_) => 0,
        }
    }

    /// The events that a tap sends from its `i`-th step on, where the step with
    /// number `j` succeeds exactly if `ok(j)`.
    pub open spec fn events(self, i: nat, ok: spec_fn(nat) -> bool) -> Seq<InputEvent>
        decreases self.steps_left(),
        when self.well_formed()
        via TapView::events_end
    {
        match self.step() {
            TapStep::Send(e) => seq![e] + self.after(ok(i)).events(i + 1, ok),
            TapStep::Wait(_) => self.after(ok(i)).events(i + 1, ok),
            TapStep::Done(_) => Seq::<InputEvent>::empty(),
        }
    }

    /// The success of a tap that goes on from its `i`-th step.
    pub open spec fn result(self, i: nat, ok: spec_fn(nat) -> bool) -> bool
        decreases self.steps_left(),
        when self.well_formed()
        via TapView::result_end
    {
        match self.step() {
            TapStep::Done(r) => r,
            _ => self.after(ok(i)).result(i + 1, ok),
        }
    }

    #[via_fn]
    proof fn events_end(self, i: nat, ok: spec_fn(nat) -> bool) {
        self.lemma_progress(ok(i));
    }

    #[via_fn]
    proof fn result_end(self, i: nat, ok: spec_fn(nat) -> bool) {
        self.lemma_progress(ok(i));
    }

    /// Every step brings a tap nearer to its end.
    pub proof fn lemma_progress(self, ok: bool)
        requires
            self.well_formed(),
        ensures
            self.after(ok).well_formed(),
            self.phase !is Done ==> self.after(ok).steps_left() < self.steps_left(),
    {
    }
}

/// The presses of the given keys in their order.
pub open spec fn presses(keys: Seq<Key>) -> Seq<InputEvent> {
    keys.map_values(|k: Key| InputEvent::KeyPress(k))
}

/// The releases of the given keys in reverse order.
pub open spec fn releases_reversed(keys: Seq<Key>) -> Seq<InputEvent>
    decreases keys.len(),
{
    if keys.len() == 0 {
        Seq::<InputEvent>::empty()
    } else {
        seq![InputEvent::KeyRelease(keys.last())] + releases_reversed(keys.drop_last())
    }
}

proof fn lemma_unwind(t: TapView, n: int, result: bool, i: nat, ok: spec_fn(nat) -> bool)
    requires
        0 <= n <= t.mods.len() <= usize::MAX,
        t.target is Key,
        t.phase == TapView::unwinding(n, result),
    ensures
        t.events(i, ok) == releases_reversed(t.mods.take(n)),
        t.result(i, ok) == result,
    decreases n,
{
    if n > 0 {
        lemma_unwind(t.after(ok(i)), n - 1, result, i + 1, ok);
        assert(t.mods.take(n).drop_last() =~= t.mods.take(n - 1));
        assert(t.mods.take(n).last() == t.mods[n - 1]);
    } else {
        assert(t.mods.take(0) =~= Seq::<Key>::empty());
    }
}

proof fn lemma_press_mods(t: TapView, n: int, good: int, ok: spec_fn(nat) -> bool)
    requires
        t.well_formed(),
        t.target is Key,
        0 <= n <= good <= t.mods.len(),
        n < t.mods.len(),
        t.phase == TapPhase::Modifiers(n as usize),
        forall|j: nat| n <= j < good ==> #[trigger] ok(j),
        good < t.mods.len() ==> !ok(good as nat),
    ensures
        good < t.mods.len() ==> t.events(n as nat, ok) == presses(
            t.mods.subrange(n, good + 1),
        ) + releases_reversed(t.mods.take(good)) && !t.result(n as nat, ok),
        good == t.mods.len() ==> t.events(n as nat, ok) == presses(
            t.mods.subrange(n, good),
        ) + seq![press_of(t.target), release_of(t.target)] + releases_reversed(t.mods)
            && t.result(n as nat, ok) == ok(good as nat),
    decreases good - n,
{
    let next = t.after(ok(n as nat));
    if n == good {
        lemma_unwind(next, n, false, (n + 1) as nat, ok);
        assert(t.mods.subrange(n, n + 1) =~= seq![t.mods[n]]);
        assert(presses(t.mods.subrange(n, n + 1)) =~= seq![InputEvent::KeyPress(t.mods[n])]);
    } else if n + 1 < t.mods.len() {
        lemma_press_mods(next, n + 1, good, ok);
        if good < t.mods.len() {
            assert(presses(t.mods.subrange(n, good + 1)) =~= seq![InputEvent::KeyPress(t.mods[n])]
                + presses(t.mods.subrange(n + 1, good + 1)));
            assert(t.events(n as nat, ok) =~= presses(t.mods.subrange(n, good + 1))
                + releases_reversed(t.mods.take(good)));
        } else {
            assert(presses(t.mods.subrange(n, good)) =~= seq![InputEvent::KeyPress(t.mods[n])]
                + presses(t.mods.subrange(n + 1, good)));
            assert(t.events(n as nat, ok) =~= presses(t.mods.subrange(n, good)) + seq![
                press_of(t.target),
                release_of(t.target),
            ] + releases_reversed(t.mods));
        }
    } else {
        assert(good == t.mods.len());
        lemma_press_main(next, (n + 1) as nat, ok);
        assert(t.mods.subrange(n, good) =~= seq![t.mods[n]]);
        assert(presses(t.mods.subrange(n, good)) =~= seq![InputEvent::KeyPress(t.mods[n])]);
        assert(t.events(n as nat, ok) =~= presses(t.mods.subrange(n, good)) + seq![
            press_of(t.target),
            release_of(t.target),
        ] + releases_reversed(t.mods));
    }
}

proof fn lemma_press_main(t: TapView, i: nat, ok: spec_fn(nat) -> bool)
    requires
        t.well_formed(),
        t.target is Key,
        t.phase == TapPhase::Press,
    ensures
        t.events(i, ok) == seq![press_of(t.target), release_of(t.target)] + releases_reversed(
            t.mods,
        ),
        t.result(i, ok) == ok(i),
{
    let held = t.after(ok(i));
    let release = held.after(ok(i + 1));
    let rest = release.after(ok(i + 2));
    lemma_unwind(rest, t.mods.len() as int, ok(i), i + 3, ok);
    assert(t.mods.take(t.mods.len() as int) =~= t.mods);
    assert(release.events(i + 2, ok) == seq![release_of(t.target)] + rest.events(i + 3, ok));
    assert(held.events(i + 1, ok) == release.events(i + 2, ok));
    assert(t.events(i, ok) == seq![press_of(t.target)] + held.events(i + 1, ok));
    assert(t.events(i, ok) =~= seq![press_of(t.target), release_of(t.target)]
        + releases_reversed(t.mods));
    assert(release.result(i + 2, ok) == rest.result(i + 3, ok));
    assert(held.result(i + 1, ok) == release.result(i + 2, ok));
}

/// No modifier stays pressed. Where the presses of all modifiers succeed, the
/// tap presses and releases the main key and then releases every modifier in
/// reverse order, whatever else fails, and its success is that of the press of
/// the main key. Where the press of the modifier with number `good` is the first
/// to fail, exactly the modifiers before it are released, in reverse order, the
/// main key is left alone, and the tap has no success.
pub proof fn tap_leaves_no_modifier_pressed(
    mods: Seq<Key>,
    main: Key,
    good: int,
    ok: spec_fn(nat) -> bool,
)
    requires
        mods.len() <= usize::MAX,
        0 <= good <= mods.len(),
        forall|j: nat| 0 <= j < good ==> #[trigger] ok(j),
        good < mods.len() ==> !ok(good as nat),
    ensures
        good == mods.len() ==> key_tap(mods, main).events(0, ok) == presses(mods) + seq![
            InputEvent::KeyPress(main),
            InputEvent::KeyRelease(main),
        ] + releases_reversed(mods) && key_tap(mods, main).result(0, ok) == ok(good as nat),
        good < mods.len() ==> key_tap(mods, main).events(0, ok) == presses(mods.take(good + 1))
            + releases_reversed(mods.take(good)) && !key_tap(mods, main).result(0, ok),
{
    let t = key_tap(mods, main);
    if mods.len() == 0 {
        lemma_press_main(t, 0, ok);
        assert(presses(mods) =~= Seq::<InputEvent>::empty());
        assert(presses(mods) + seq![InputEvent::KeyPress(main), InputEvent::KeyRelease(main)]
            + releases_reversed(mods) =~= t.events(0, ok));
    } else {
        lemma_press_mods(t, 0, good, ok);
        if good < mods.len() {
            assert(mods.subrange(0, good + 1) =~= mods.take(good + 1));
        } else {
            assert(mods.subrange(0, good) =~= mods);
        }
    }
}

/// The tap of a mouse button presses and releases it, whether the press
/// succeeds or not, and succeeds exactly if both do.
pub proof fn button_tap_presses_and_releases(b: Button, ok: spec_fn(nat) -> bool)
    ensures
        ({
            let t = TapView {
                mods: Seq::<Key>::empty(),
                target: TapTarget::Button(b),
                phase: TapPhase::Press,
            };
            &&& t.events(0, ok) == seq![InputEvent::ButtonPress(b), InputEvent::ButtonRelease(b)]
            &&& t.result(0, ok) == (ok(0) && ok(2))
        }),
{
    let t = TapView {
        mods: Seq::<Key>::empty(),
        target: TapTarget::Button(b),
        phase: TapPhase::Press,
    };
    let held = t.after(ok(0));
    let release = held.after(ok(1));
    let done = release.after(ok(2));
    assert(done.events(3, ok) =~= Seq::<InputEvent>::empty());
    assert(release.events(2, ok) == seq![InputEvent::ButtonRelease(b)] + done.events(3, ok));
    assert(held.events(1, ok) == release.events(2, ok));
    assert(t.events(0, ok) == seq![InputEvent::ButtonPress(b)] + held.events(1, ok));
    assert(t.events(0, ok) =~= seq![InputEvent::ButtonPress(b), InputEvent::ButtonRelease(b)]);
    assert(done.result(3, ok) == (ok(0) && ok(2)));
    assert(release.result(2, ok) == done.result(3, ok));
    assert(held.result(1, ok) == release.result(2, ok));
}

// ---------------------------------------------------------------------------
// Laws of names
// ---------------------------------------------------------------------------

proof fn lemma_upper_char(c: char)
    ensures
        upper_stable(text::upper_char(c)),
        text::upper_char(c) == '+' <==> c == '+',
{
}

/// A character that upper case leaves as it is.
pub open spec fn upper_stable(c: char) -> bool {
    text::upper_char(c) == c
}

proof fn lemma_upper_twice(s: Seq<char>)
    ensures
        text::upper(text::upper(s)) == text::upper(s),
{
    assert forall|i: int| 0 <= i < s.len() implies text::upper(text::upper(s))[i] == text::upper(
        s,
    )[i] by {
        lemma_upper_char(s[i]);
    }
    assert(text::upper(text::upper(s)) =~= text::upper(s));
}

pub open spec fn upper_all(parts: Seq<Seq<char>>) -> Seq<Seq<char>> {
    parts.map_values(|p: Seq<char>| text::upper(p))
}

proof fn lemma_split_upper(s: Seq<char>)
    ensures
        text::split(text::upper(s), '+') == upper_all(text::split(s, '+')),
    decreases s.len(),
{
    let u = text::upper(s);
    if s.len() == 0 {
        assert(u =~= Seq::<char>::empty());
        assert(text::upper(Seq::<char>::empty()) =~= Seq::<char>::empty());
        assert(upper_all(text::split(s, '+')) =~= text::split(u, '+'));
    } else {
        let t = s.drop_last();
        let done = text::split(t, '+');
        lemma_split_upper(t);
        text::lemma_split_some(t, '+');
        lemma_upper_char(s.last());
        assert(u.drop_last() =~= text::upper(t));
        assert(u.last() == text::upper_char(s.last()));
        if s.last() == '+' {
            assert(text::upper(Seq::<char>::empty()) =~= Seq::<char>::empty());
            assert(upper_all(done.push(Seq::<char>::empty())) =~= upper_all(done).push(
                Seq::<char>::empty(),
            ));
        } else {
            let piece = done.last().push(s.last());
            assert(text::upper(piece) =~= text::upper(done.last()).push(u.last()));
            assert(upper_all(done).drop_last() =~= upper_all(done.drop_last()));
            assert(upper_all(done.drop_last().push(piece)) =~= upper_all(done.drop_last()).push(
                text::upper(piece),
            ));
        }
    }
}

proof fn lemma_main_position_upper(parts: Seq<Seq<char>>, k: int)
    requires
        0 <= k <= parts.len(),
    ensures
        main_position(upper_all(parts), k) == main_position(parts, k),
        main_position(parts, k) is Some ==> 0 <= main_position(parts, k)->0 < k,
    decreases k,
{
    if k > 0 {
        lemma_upper_twice(parts[k - 1]);
        lemma_main_position_upper(parts, k - 1);
    }
}

proof fn lemma_modifiers_upper(parts: Seq<Seq<char>>, main: int, k: int)
    requires
        0 <= k <= parts.len(),
    ensures
        modifiers(upper_all(parts), main, k) == modifiers(parts, main, k),
    decreases k,
{
    if k > 0 {
        lemma_upper_twice(parts[k - 1]);
        lemma_modifiers_upper(parts, main, k - 1);
    }
}

proof fn lemma_upper_binding(name: Seq<char>)
    ensures
        binding_key(text::upper(name)) == binding_key(name),
        tap_of(text::upper(name)) == tap_of(name),
{
    let parts = text::split(name, '+');
    let ups = upper_all(parts);
    lemma_split_upper(name);
    text::lemma_split_some(name, '+');
    lemma_upper_twice(name);
    lemma_upper_twice(parts.last());
    assert(ups.last() == text::upper(parts.last()));
    assert(all_named(ups) == all_named(parts)) by {
        assert forall|i: int| 0 <= i < parts.len() implies plain_modifier(#[trigger] ups[i])
            == plain_modifier(parts[i]) && key_named(ups[i]) == key_named(parts[i]) by {
            lemma_upper_twice(parts[i]);
        }
        if all_named(ups) {
            assert forall|i: int| 0 <= i < parts.len() implies plain_modifier(
                #[trigger] parts[i],
            ) is Some || key_named(parts[i]) is Some by {
                assert(plain_modifier(ups[i]) is Some || key_named(ups[i]) is Some);
            }
        }
    }
    lemma_main_position_upper(parts, parts.len() as int);
    if main_position(parts, parts.len() as int) is Some {
        let main = main_position(parts, parts.len() as int)->0;
        lemma_modifiers_upper(parts, main, parts.len() as int);
        lemma_upper_twice(parts[main]);
    }
}

/// A binding may be written in any mixture of upper and lower case: the
/// listener recognises the same key by it, and a tap of it does the same.
pub proof fn bindings_ignore_case(a: Seq<char>, b: Seq<char>)
    requires
        text::upper(a) == text::upper(b),
    ensures
        binding_key(a) == binding_key(b),
        tap_of(a) == tap_of(b),
{
    lemma_upper_binding(a);
    lemma_upper_binding(b);
}

/// No character of the text is a small letter or a plus sign.
pub open spec fn is_plain(s: Seq<char>) -> bool {
    forall|i: int| 0 <= i < s.len() ==> !('a' <= #[trigger] s[i] <= 'z') && s[i] != '+'
}

proof fn lemma_plain(s: Seq<char>)
    requires
        is_plain(s),
    ensures
        text::upper(s) == s,
        text::split(s, '+') == seq![s],
    decreases s.len(),
{
    assert(text::upper(s) =~= s);
    if s.len() > 0 {
        let t = s.drop_last();
        assert forall|i: int| 0 <= i < t.len() implies !('a' <= #[trigger] t[i] <= 'z') && t[i]
            != '+' by {
            assert(t[i] == s[i]);
        }
        lemma_plain(t);
        assert(s.last() == s[s.len() - 1]);
        assert(t.push(s.last()) =~= s);
        assert(seq![t].drop_last().push(s) =~= seq![s]);
    } else {
        assert(s =~= Seq::<char>::empty());
    }
}

proof fn lemma_short_label(k: Key)
    requires
        key_label(k) is Some,
        (key_label(k)->0).len() == 1,
    ensures
        is_plain(key_label(k)->0),
        key_named(key_label(k)->0) == Some(k),
{
    let n = key_label(k)->0;
    let c = n[0];
    reveal_strlit("0");
    reveal_strlit("1");
    reveal_strlit("2");
    reveal_strlit("3");
    reveal_strlit("4");
    reveal_strlit("5");
    reveal_strlit("6");
    reveal_strlit("7");
    reveal_strlit("8");
    reveal_strlit("9");
    reveal_strlit("A");
    reveal_strlit("B");
    reveal_strlit("C");
    reveal_strlit("D");
    reveal_strlit("E");
    reveal_strlit("F");
    reveal_strlit("G");
    reveal_strlit("H");
    reveal_strlit("I");
    reveal_strlit("J");
    reveal_strlit("K");
    reveal_strlit("L");
    reveal_strlit("M");
    reveal_strlit("N");
    reveal_strlit("O");
    reveal_strlit("P");
    reveal_strlit("Q");
    reveal_strlit("R");
    reveal_strlit("S");
    reveal_strlit("T");
    reveal_strlit("U");
    reveal_strlit("V");
    reveal_strlit("W");
    reveal_strlit("X");
    reveal_strlit("Y");
    reveal_strlit("Z");
    lemma_label_lengths(k);
    assert(is_plain(n));
    lemma_plain(n);
}

/// Whether the name of the key is a single character.
spec fn is_short(k: Key) -> bool {
    match k {
        Key::Num0
        | Key::Num1
        | Key::Num2
        | Key::Num3
        | Key::Num4
        | Key::Num5
        | Key::Num6
        | Key::Num7
        | Key::Num8
        | Key::Num9
        | Key::KeyA
        | Key::KeyB
        | Key::KeyC
        | Key::KeyD
        | Key::KeyE
        | Key::KeyF
        | Key::KeyG
        | Key::KeyH
        | Key::KeyI
        | Key::KeyJ
        | Key::KeyK
        | Key::KeyL
        | Key::KeyM
        | Key::KeyN
        | Key::KeyO
        | Key::KeyP
        | Key::KeyQ
        | Key::KeyR
        | Key::KeyS
        | Key::KeyT
        | Key::KeyU
        | Key::KeyV
        | Key::KeyW
        | Key::KeyX
        | Key::KeyY
        | Key::KeyZ => true,
        _ => false,
    }
}

proof fn lemma_label_lengths(k: Key)
    requires
        key_label(k) is Some,
    ensures
        (key_label(k)->0).len() >= 1,
        (key_label(k)->0).len() == 1 <==> is_short(k),
{
    reveal_strlit("0");
    reveal_strlit("1");
    reveal_strlit("2");
    reveal_strlit("3");
    reveal_strlit("4");
    reveal_strlit("5");
    reveal_strlit("6");
    reveal_strlit("7");
    reveal_strlit("8");
    reveal_strlit("9");
    reveal_strlit("A");
    reveal_strlit("B");
    reveal_strlit("C");
    reveal_strlit("D");
    reveal_strlit("E");
    reveal_strlit("F");
    reveal_strlit("G");
    reveal_strlit("H");
    reveal_strlit("I");
    reveal_strlit("J");
    reveal_strlit("K");
    reveal_strlit("L");
    reveal_strlit("M");
    reveal_strlit("N");
    reveal_strlit("O");
    reveal_strlit("P");
    reveal_strlit("Q");
    reveal_strlit("R");
    reveal_strlit("S");
    reveal_strlit("T");
    reveal_strlit("U");
    reveal_strlit("V");
    reveal_strlit("W");
    reveal_strlit("X");
    reveal_strlit("Y");
    reveal_strlit("Z");
    reveal_strlit("F1");
    reveal_strlit("F2");
    reveal_strlit("F3");
    reveal_strlit("F4");
    reveal_strlit("F5");
    reveal_strlit("F6");
    reveal_strlit("F7");
    reveal_strlit("F8");
    reveal_strlit("F9");
    reveal_strlit("F10");
    reveal_strlit("F11");
    reveal_strlit("F12");
    reveal_strlit("LALT");
    reveal_strlit("RALT");
    reveal_strlit("TAB");
    reveal_strlit("SPACE");
    reveal_strlit("ENTER");
    reveal_strlit("BACKSPACE");
    reveal_strlit("DEL");
    reveal_strlit("INSERT");
    reveal_strlit("HOME");
    reveal_strlit("END");
    reveal_strlit("PAGEUP");
    reveal_strlit("PAGEDOWN");
    reveal_strlit("ARROW_LEFT");
    reveal_strlit("ARROW_RIGHT");
    reveal_strlit("ARROW_UP");
    reveal_strlit("ARROW_DOWN");
    reveal_strlit("CAPSLOCK");
    reveal_strlit("SCROLLLOCK");
    reveal_strlit("NUMLOCK");
    reveal_strlit("PRINTSCREEN");
    reveal_strlit("PAUSE");
    reveal_strlit("PERIOD");
    reveal_strlit("COMMA");
    reveal_strlit("SLASH");
    reveal_strlit("BACKSLASH");
    reveal_strlit("MINUS");
    reveal_strlit("EQUALS");
    reveal_strlit("LBRACKET");
    reveal_strlit("RBRACKET");
    reveal_strlit("SEMICOLON");
    reveal_strlit("APOSTROPHE");
    reveal_strlit("GRAVE");
}

proof fn lemma_function_label(n: nat)
    requires
        1 <= n <= 12,
    ensures
        ({
            let k = function_key(n)->0;
            &&& key_label(k) is Some
            &&& is_plain(key_label(k)->0)
            &&& key_named(key_label(k)->0) == Some(k)
        }),
{
    let k = function_key(n)->0;
    reveal_strlit("F1");
    reveal_strlit("F2");
    reveal_strlit("F3");
    reveal_strlit("F4");
    reveal_strlit("F5");
    reveal_strlit("F6");
    reveal_strlit("F7");
    reveal_strlit("F8");
    reveal_strlit("F9");
    reveal_strlit("F10");
    reveal_strlit("F11");
    reveal_strlit("F12");
    let s = key_label(k)->0;
    assert(s[0] == 'F');
    let d = s.skip(1);
    if n < 10 {
        assert(s.len() == 2);
        assert(d =~= seq![text::digit_char(n)]);
        assert(d.drop_last() =~= Seq::<char>::empty());
        assert(text::digits_value(d.drop_last()) == 0);
        assert(text::digits_value(d) == n);
    } else {
        assert(s.len() == 3);
        assert(d =~= seq!['1', text::digit_char((n - 10) as nat)]);
        let e = d.drop_last();
        assert(e =~= seq!['1']);
        assert(e.drop_last() =~= Seq::<char>::empty());
        assert(text::digits_value(e.drop_last()) == 0);
        assert(text::digits_value(e) == 1);
        assert(text::digits_value(d) == n);
    }
    assert(text::all_digits(d));
    assert(text::number(d) == Some(n));
    assert(is_plain(s));
    lemma_plain(s);
}

/// Whether the key is a function key.
spec fn is_function(k: Key) -> bool {
    match k {
        Key::F1
        | Key::F2
        | Key::F3
        | Key::F4
        | Key::F5
        | Key::F6
        | Key::F7
        | Key::F8
        | Key::F9
        | Key::F10
        | Key::F11
        | Key::F12 => true,
        _ => false,
    }
}

proof fn lemma_special_label(k: Key)
    requires
        key_label(k) is Some,
        !is_short(k),
        !is_function(k),
    ensures
        is_plain(key_label(k)->0),
        key_named(key_label(k)->0) == Some(k),
{
    let n = key_label(k)->0;
    reveal_strlit("LALT");
    reveal_strlit("ALT");
    reveal_strlit("RALT");
    reveal_strlit("ALTGR");
    reveal_strlit("TAB");
    reveal_strlit("SPACE");
    reveal_strlit("ENTER");
    reveal_strlit("BACKSPACE");
    reveal_strlit("DEL");
    reveal_strlit("DELETE");
    reveal_strlit("INSERT");
    reveal_strlit("HOME");
    reveal_strlit("END");
    reveal_strlit("PAGEUP");
    reveal_strlit("PAGEDOWN");
    reveal_strlit("ARROW_LEFT");
    reveal_strlit("ARROW_RIGHT");
    reveal_strlit("ARROW_UP");
    reveal_strlit("ARROW_DOWN");
    reveal_strlit("CAPSLOCK");
    reveal_strlit("SCROLLLOCK");
    reveal_strlit("NUMLOCK");
    reveal_strlit("PRINTSCREEN");
    reveal_strlit("PAUSE");
    reveal_strlit("MENU");
    reveal_strlit("PERIOD");
    reveal_strlit("COMMA");
    reveal_strlit("SLASH");
    reveal_strlit("BACKSLASH");
    reveal_strlit("MINUS");
    reveal_strlit("EQUALS");
    reveal_strlit("LBRACKET");
    reveal_strlit("RBRACKET");
    reveal_strlit("SEMICOLON");
    reveal_strlit("APOSTROPHE");
    reveal_strlit("GRAVE");
    lemma_label_lengths(k);
    assert(is_plain(n));
    lemma_plain(n);
    assert(special_key(n) == Some(k));
}

proof fn lemma_label(k: Key)
    requires
        key_label(k) is Some,
    ensures
        is_plain(key_label(k)->0),
        key_named(key_label(k)->0) == Some(k),
{
    lemma_label_lengths(k);
    match k {
        Key::F1 => lemma_function_label(1),
        Key::F2 => lemma_function_label(2),
        Key::F3 => lemma_function_label(3),
        Key::F4 => lemma_function_label(4),
        Key::F5 => lemma_function_label(5),
        Key::F6 => lemma_function_label(6),
        Key::F7 => lemma_function_label(7),
        Key::F8 => lemma_function_label(8),
        Key::F9 => lemma_function_label(9),
        Key::F10 => lemma_function_label(10),
        Key::F11 => lemma_function_label(11),
        Key::F12 => lemma_function_label(12),
        _ => if is_short(k) {
            lemma_short_label(k)
        } else {
            lemma_special_label(k)
        },
    }
}

/// A captured key reads back: the name under which a key is stored stands for
/// that key, both for the listener and for a tap, which presses it without
/// modifiers.
pub proof fn stored_names_read_back(k: Key)
    requires
        key_label(k) is Some,
    ensures
        key_named(key_label(k)->0) == Some(k),
        binding_key(key_label(k)->0) == Some(k),
        tap_of(key_label(k)->0) == key_tap(Seq::<Key>::empty(), k),
{
    let n = key_label(k)->0;
    lemma_label(k);
    lemma_plain(n);
    let parts = text::split(n, '+');
    assert(parts[0] == n);
    lemma_no_plain_modifier(k);
    assert(main_position(parts, 1) == Some(0int));
    assert(modifiers(parts, 0, 1) =~= Seq::<Key>::empty()) by {
        assert(modifiers(parts, 0, 0) =~= Seq::<Key>::empty());
    }
    assert(all_named(parts));
}

proof fn lemma_no_plain_modifier(k: Key)
    requires
        key_label(k) is Some,
    ensures
        plain_modifier(key_label(k)->0) is None,
        button_named(key_label(k)->0) is None,
{
    let n = key_label(k)->0;
    lemma_label(k);
    lemma_plain(n);
    assert("CTRL"@.len() == 4 && "CTRL"@[0] == 'C' && "CTRL"@[1] == 'T') by {
        reveal_strlit("CTRL");
    }
    assert("ALT"@.len() == 3 && "ALT"@[0] == 'A' && "ALT"@[1] == 'L') by {
        reveal_strlit("ALT");
    }
    assert("WIN"@.len() == 3 && "WIN"@[0] == 'W') by {
        reveal_strlit("WIN");
    }
    assert("MB1"@.len() == 3 && "MB1"@[0] == 'M' && "MB1"@[1] == 'B') by {
        reveal_strlit("MB1");
    }
    assert("MB2"@.len() == 3 && "MB2"@[0] == 'M' && "MB2"@[1] == 'B') by {
        reveal_strlit("MB2");
    }
    assert("MB3"@.len() == 3 && "MB3"@[0] == 'M' && "MB3"@[1] == 'B') by {
        reveal_strlit("MB3");
    }
    reveal_strlit("0");
    reveal_strlit("1");
    reveal_strlit("2");
    reveal_strlit("3");
    reveal_strlit("4");
    reveal_strlit("5");
    reveal_strlit("6");
    reveal_strlit("7");
    reveal_strlit("8");
    reveal_strlit("9");
    reveal_strlit("A");
    reveal_strlit("B");
    reveal_strlit("C");
    reveal_strlit("D");
    reveal_strlit("E");
    reveal_strlit("F");
    reveal_strlit("G");
    reveal_strlit("H");
    reveal_strlit("I");
    reveal_strlit("J");
    reveal_strlit("K");
    reveal_strlit("L");
    reveal_strlit("M");
    reveal_strlit("N");
    reveal_strlit("O");
    reveal_strlit("P");
    reveal_strlit("Q");
    reveal_strlit("R");
    reveal_strlit("S");
    reveal_strlit("T");
    reveal_strlit("U");
    reveal_strlit("V");
    reveal_strlit("W");
    reveal_strlit("X");
    reveal_strlit("Y");
    reveal_strlit("Z");
    reveal_strlit("F1");
    reveal_strlit("F2");
    reveal_strlit("F3");
    reveal_strlit("F4");
    reveal_strlit("F5");
    reveal_strlit("F6");
    reveal_strlit("F7");
    reveal_strlit("F8");
    reveal_strlit("F9");
    reveal_strlit("F10");
    reveal_strlit("F11");
    reveal_strlit("F12");
    reveal_strlit("LALT");
    reveal_strlit("RALT");
    reveal_strlit("TAB");
    reveal_strlit("SPACE");
    reveal_strlit("ENTER");
    reveal_strlit("BACKSPACE");
    reveal_strlit("DEL");
    reveal_strlit("INSERT");
    reveal_strlit("HOME");
    reveal_strlit("END");
    reveal_strlit("PAGEUP");
    reveal_strlit("PAGEDOWN");
    reveal_strlit("ARROW_LEFT");
    reveal_strlit("ARROW_RIGHT");
    reveal_strlit("ARROW_UP");
    reveal_strlit("ARROW_DOWN");
    reveal_strlit("CAPSLOCK");
    reveal_strlit("SCROLLLOCK");
    reveal_strlit("NUMLOCK");
    reveal_strlit("PRINTSCREEN");
    reveal_strlit("PAUSE");
    reveal_strlit("PERIOD");
    reveal_strlit("COMMA");
    reveal_strlit("SLASH");
    reveal_strlit("BACKSLASH");
    reveal_strlit("MINUS");
    reveal_strlit("EQUALS");
    reveal_strlit("LBRACKET");
    reveal_strlit("RBRACKET");
    reveal_strlit("SEMICOLON");
    reveal_strlit("APOSTROPHE");
    reveal_strlit("GRAVE");
    assert(n.len() == 4 ==> n[0] != 'C');
    assert(n.len() == 3 ==> n[0] != 'A' && n[0] != 'W' && n[0] != 'M');
}

/// The name under which a mouse button is stored stands for that button.
pub proof fn stored_buttons_read_back(b: Button)
    ensures
        button_named(button_label(b)) == Some(b),
{
    reveal_strlit("MB1");
    reveal_strlit("MB2");
    reveal_strlit("MB3");
    let n = button_label(b);
    assert(is_plain(n));
    lemma_plain(n);
    assert("MB1"@[2] == '1' && "MB2"@[2] == '2' && "MB3"@[2] == '3');
}

proof fn lemma_written(name: Seq<char>, k: Key)
    requires
        key_label(k) is Some,
        text::upper(name) == key_label(k)->0,
    ensures
        key_named(name) == Some(k),
{
    lemma_label(k);
    lemma_plain(key_label(k)->0);
}

proof fn lemma_other_names(n: Seq<char>)
    ensures
        n == "ALT"@ || n == "ALTGR"@ || n == "MENU"@ || n == "DELETE"@ || n == "MB1"@ || n
            == "MB2"@ || n == "MB3"@ || n == "CTRL"@ || n == "WIN"@ ==> n.len() > 1 && n[0]
            != 'F',
        n == "ALT"@ ==> special_key(n) == Some(Key::Alt),
        n == "ALTGR"@ || n == "MENU"@ ==> special_key(n) == Some(Key::AltGr),
        n == "DELETE"@ ==> special_key(n) == Some(Key::Delete),
        n == "MB1"@ || n == "MB2"@ || n == "MB3"@ || n == "CTRL"@ || n == "WIN"@
            ==> special_key(n) is None,
{
    reveal_strlit("LALT");
    reveal_strlit("RALT");
    reveal_strlit("TAB");
    reveal_strlit("SPACE");
    reveal_strlit("ENTER");
    reveal_strlit("BACKSPACE");
    reveal_strlit("DEL");
    reveal_strlit("INSERT");
    reveal_strlit("HOME");
    reveal_strlit("END");
    reveal_strlit("PAGEUP");
    reveal_strlit("PAGEDOWN");
    reveal_strlit("ARROW_LEFT");
    reveal_strlit("ARROW_RIGHT");
    reveal_strlit("ARROW_UP");
    reveal_strlit("ARROW_DOWN");
    reveal_strlit("CAPSLOCK");
    reveal_strlit("SCROLLLOCK");
    reveal_strlit("NUMLOCK");
    reveal_strlit("PRINTSCREEN");
    reveal_strlit("PAUSE");
    reveal_strlit("PERIOD");
    reveal_strlit("COMMA");
    reveal_strlit("SLASH");
    reveal_strlit("BACKSLASH");
    reveal_strlit("MINUS");
    reveal_strlit("EQUALS");
    reveal_strlit("LBRACKET");
    reveal_strlit("RBRACKET");
    reveal_strlit("SEMICOLON");
    reveal_strlit("APOSTROPHE");
    reveal_strlit("GRAVE");
    reveal_strlit("ALT");
    reveal_strlit("ALTGR");
    reveal_strlit("MENU");
    reveal_strlit("DELETE");
    reveal_strlit("MB1");
    reveal_strlit("MB2");
    reveal_strlit("MB3");
    reveal_strlit("CTRL");
    reveal_strlit("WIN");
    assert("LALT"@.len() == 4 && "LALT"@[0] == 'L' && "LALT"@[1] == 'A');
    assert("RALT"@.len() == 4 && "RALT"@[0] == 'R' && "RALT"@[1] == 'A');
    assert("TAB"@.len() == 3 && "TAB"@[0] == 'T' && "TAB"@[1] == 'A');
    assert("SPACE"@.len() == 5 && "SPACE"@[0] == 'S' && "SPACE"@[1] == 'P');
    assert("ENTER"@.len() == 5 && "ENTER"@[0] == 'E' && "ENTER"@[1] == 'N');
    assert("DEL"@.len() == 3 && "DEL"@[0] == 'D' && "DEL"@[1] == 'E');
    assert("INSERT"@.len() == 6 && "INSERT"@[0] == 'I' && "INSERT"@[1] == 'N');
    assert("HOME"@.len() == 4 && "HOME"@[0] == 'H' && "HOME"@[1] == 'O');
    assert("END"@.len() == 3 && "END"@[0] == 'E' && "END"@[1] == 'N');
    assert("PAGEUP"@.len() == 6 && "PAGEUP"@[0] == 'P' && "PAGEUP"@[1] == 'A');
    assert("PAUSE"@.len() == 5 && "PAUSE"@[0] == 'P' && "PAUSE"@[1] == 'A');
    assert("PERIOD"@.len() == 6 && "PERIOD"@[0] == 'P' && "PERIOD"@[1] == 'E');
    assert("COMMA"@.len() == 5 && "COMMA"@[0] == 'C' && "COMMA"@[1] == 'O');
    assert("SLASH"@.len() == 5 && "SLASH"@[0] == 'S' && "SLASH"@[1] == 'L');
    assert("MINUS"@.len() == 5 && "MINUS"@[0] == 'M' && "MINUS"@[1] == 'I');
    assert("EQUALS"@.len() == 6 && "EQUALS"@[0] == 'E' && "EQUALS"@[1] == 'Q');
    assert("GRAVE"@.len() == 5 && "GRAVE"@[0] == 'G' && "GRAVE"@[1] == 'R');
    assert("ALT"@.len() == 3 && "ALT"@[0] == 'A' && "ALT"@[1] == 'L');
    assert("ALTGR"@.len() == 5 && "ALTGR"@[0] == 'A' && "ALTGR"@[1] == 'L');
    assert("MENU"@.len() == 4 && "MENU"@[0] == 'M' && "MENU"@[1] == 'E');
    assert("DELETE"@.len() == 6 && "DELETE"@[0] == 'D' && "DELETE"@[1] == 'E');
    assert("MB1"@.len() == 3 && "MB1"@[0] == 'M' && "MB1"@[1] == 'B');
    assert("MB2"@.len() == 3 && "MB2"@[0] == 'M' && "MB2"@[1] == 'B');
    assert("MB3"@.len() == 3 && "MB3"@[0] == 'M' && "MB3"@[1] == 'B');
    assert("CTRL"@.len() == 4 && "CTRL"@[0] == 'C' && "CTRL"@[1] == 'T');
    assert("WIN"@.len() == 3 && "WIN"@[0] == 'W' && "WIN"@[1] == 'I');
}

/// Every documented name, in any case, stands for the key that it is called
/// after.
pub proof fn names_stand_for_their_keys(name: Seq<char>)
    ensures
        text::upper(name) == "0"@ ==> key_named(name) == Some(Key::Num0),
        text::upper(name) == "1"@ ==> key_named(name) == Some(Key::Num1),
        text::upper(name) == "2"@ ==> key_named(name) == Some(Key::Num2),
        text::upper(name) == "3"@ ==> key_named(name) == Some(Key::Num3),
        text::upper(name) == "4"@ ==> key_named(name) == Some(Key::Num4),
        text::upper(name) == "5"@ ==> key_named(name) == Some(Key::Num5),
        text::upper(name) == "6"@ ==> key_named(name) == Some(Key::Num6),
        text::upper(name) == "7"@ ==> key_named(name) == Some(Key::Num7),
        text::upper(name) == "8"@ ==> key_named(name) == Some(Key::Num8),
        text::upper(name) == "9"@ ==> key_named(name) == Some(Key::Num9),
        text::upper(name) == "A"@ ==> key_named(name) == Some(Key::KeyA),
        text::upper(name) == "B"@ ==> key_named(name) == Some(Key::KeyB),
        text::upper(name) == "C"@ ==> key_named(name) == Some(Key::KeyC),
        text::upper(name) == "D"@ ==> key_named(name) == Some(Key::KeyD),
        text::upper(name) == "E"@ ==> key_named(name) == Some(Key::KeyE),
        text::upper(name) == "F"@ ==> key_named(name) == Some(Key::KeyF),
        text::upper(name) == "G"@ ==> key_named(name) == Some(Key::KeyG),
        text::upper(name) == "H"@ ==> key_named(name) == Some(Key::KeyH),
        text::upper(name) == "I"@ ==> key_named(name) == Some(Key::KeyI),
        text::upper(name) == "J"@ ==> key_named(name) == Some(Key::KeyJ),
        text::upper(name) == "K"@ ==> key_named(name) == Some(Key::KeyK),
        text::upper(name) == "L"@ ==> key_named(name) == Some(Key::KeyL),
        text::upper(name) == "M"@ ==> key_named(name) == Some(Key::KeyM),
        text::upper(name) == "N"@ ==> key_named(name) == Some(Key::KeyN),
        text::upper(name) == "O"@ ==> key_named(name) == Some(Key::KeyO),
        text::upper(name) == "P"@ ==> key_named(name) == Some(Key::KeyP),
        text::upper(name) == "Q"@ ==> key_named(name) == Some(Key::KeyQ),
        text::upper(name) == "R"@ ==> key_named(name) == Some(Key::KeyR),
        text::upper(name) == "S"@ ==> key_named(name) == Some(Key::KeyS),
        text::upper(name) == "T"@ ==> key_named(name) == Some(Key::KeyT),
        text::upper(name) == "U"@ ==> key_named(name) == Some(Key::KeyU),
        text::upper(name) == "V"@ ==> key_named(name) == Some(Key::KeyV),
        text::upper(name) == "W"@ ==> key_named(name) == Some(Key::KeyW),
        text::upper(name) == "X"@ ==> key_named(name) == Some(Key::KeyX),
        text::upper(name) == "Y"@ ==> key_named(name) == Some(Key::KeyY),
        text::upper(name) == "Z"@ ==> key_named(name) == Some(Key::KeyZ),
        text::upper(name) == "F1"@ ==> key_named(name) == Some(Key::F1),
        text::upper(name) == "F2"@ ==> key_named(name) == Some(Key::F2),
        text::upper(name) == "F3"@ ==> key_named(name) == Some(Key::F3),
        text::upper(name) == "F4"@ ==> key_named(name) == Some(Key::F4),
        text::upper(name) == "F5"@ ==> key_named(name) == Some(Key::F5),
        text::upper(name) == "F6"@ ==> key_named(name) == Some(Key::F6),
        text::upper(name) == "F7"@ ==> key_named(name) == Some(Key::F7),
        text::upper(name) == "F8"@ ==> key_named(name) == Some(Key::F8),
        text::upper(name) == "F9"@ ==> key_named(name) == Some(Key::F9),
        text::upper(name) == "F10"@ ==> key_named(name) == Some(Key::F10),
        text::upper(name) == "F11"@ ==> key_named(name) == Some(Key::F11),
        text::upper(name) == "F12"@ ==> key_named(name) == Some(Key::F12),
        text::upper(name) == "LALT"@ ==> key_named(name) == Some(Key::Alt),
        text::upper(name) == "RALT"@ ==> key_named(name) == Some(Key::AltGr),
        text::upper(name) == "TAB"@ ==> key_named(name) == Some(Key::Tab),
        text::upper(name) == "SPACE"@ ==> key_named(name) == Some(Key::Space),
        text::upper(name) == "ENTER"@ ==> key_named(name) == Some(Key::Return),
        text::upper(name) == "BACKSPACE"@ ==> key_named(name) == Some(Key::Backspace),
        text::upper(name) == "DEL"@ ==> key_named(name) == Some(Key::Delete),
        text::upper(name) == "INSERT"@ ==> key_named(name) == Some(Key::Insert),
        text::upper(name) == "HOME"@ ==> key_named(name) == Some(Key::Home),
        text::upper(name) == "END"@ ==> key_named(name) == Some(Key::End),
        text::upper(name) == "PAGEUP"@ ==> key_named(name) == Some(Key::PageUp),
        text::upper(name) == "PAGEDOWN"@ ==> key_named(name) == Some(Key::PageDown),
        text::upper(name) == "ARROW_LEFT"@ ==> key_named(name) == Some(Key::LeftArrow),
        text::upper(name) == "ARROW_RIGHT"@ ==> key_named(name) == Some(Key::RightArrow),
        text::upper(name) == "ARROW_UP"@ ==> key_named(name) == Some(Key::UpArrow),
        text::upper(name) == "ARROW_DOWN"@ ==> key_named(name) == Some(Key::DownArrow),
        text::upper(name) == "CAPSLOCK"@ ==> key_named(name) == Some(Key::CapsLock),
        text::upper(name) == "SCROLLLOCK"@ ==> key_named(name) == Some(Key::ScrollLock),
        text::upper(name) == "NUMLOCK"@ ==> key_named(name) == Some(Key::NumLock),
        text::upper(name) == "PRINTSCREEN"@ ==> key_named(name) == Some(Key::PrintScreen),
        text::upper(name) == "PAUSE"@ ==> key_named(name) == Some(Key::Pause),
        text::upper(name) == "PERIOD"@ ==> key_named(name) == Some(Key::Dot),
        text::upper(name) == "COMMA"@ ==> key_named(name) == Some(Key::Comma),
        text::upper(name) == "SLASH"@ ==> key_named(name) == Some(Key::Slash),
        text::upper(name) == "BACKSLASH"@ ==> key_named(name) == Some(Key::BackSlash),
        text::upper(name) == "MINUS"@ ==> key_named(name) == Some(Key::Minus),
        text::upper(name) == "EQUALS"@ ==> key_named(name) == Some(Key::Equal),
        text::upper(name) == "LBRACKET"@ ==> key_named(name) == Some(Key::LeftBracket),
        text::upper(name) == "RBRACKET"@ ==> key_named(name) == Some(Key::RightBracket),
        text::upper(name) == "SEMICOLON"@ ==> key_named(name) == Some(Key::SemiColon),
        text::upper(name) == "APOSTROPHE"@ ==> key_named(name) == Some(Key::Quote),
        text::upper(name) == "GRAVE"@ ==> key_named(name) == Some(Key::BackQuote),
        text::upper(name) == "ALT"@ ==> key_named(name) == Some(Key::Alt),
        text::upper(name) == "ALTGR"@ ==> key_named(name) == Some(Key::AltGr),
        text::upper(name) == "MENU"@ ==> key_named(name) == Some(Key::AltGr),
        text::upper(name) == "DELETE"@ ==> key_named(name) == Some(Key::Delete),
{
    let n = text::upper(name);
    lemma_other_names(n);
    if n == "0"@ {
        lemma_written(name, Key::Num0);
    }
    if n == "1"@ {
        lemma_written(name, Key::Num1);
    }
    if n == "2"@ {
        lemma_written(name, Key::Num2);
    }
    if n == "3"@ {
        lemma_written(name, Key::Num3);
    }
    if n == "4"@ {
        lemma_written(name, Key::Num4);
    }
    if n == "5"@ {
        lemma_written(name, Key::Num5);
    }
    if n == "6"@ {
        lemma_written(name, Key::Num6);
    }
    if n == "7"@ {
        lemma_written(name, Key::Num7);
    }
    if n == "8"@ {
        lemma_written(name, Key::Num8);
    }
    if n == "9"@ {
        lemma_written(name, Key::Num9);
    }
    if n == "A"@ {
        lemma_written(name, Key::KeyA);
    }
    if n == "B"@ {
        lemma_written(name, Key::KeyB);
    }
    if n == "C"@ {
        lemma_written(name, Key::KeyC);
    }
    if n == "D"@ {
        lemma_written(name, Key::KeyD);
    }
    if n == "E"@ {
        lemma_written(name, Key::KeyE);
    }
    if n == "F"@ {
        lemma_written(name, Key::KeyF);
    }
    if n == "G"@ {
        lemma_written(name, Key::KeyG);
    }
    if n == "H"@ {
        lemma_written(name, Key::KeyH);
    }
    if n == "I"@ {
        lemma_written(name, Key::KeyI);
    }
    if n == "J"@ {
        lemma_written(name, Key::KeyJ);
    }
    if n == "K"@ {
        lemma_written(name, Key::KeyK);
    }
    if n == "L"@ {
        lemma_written(name, Key::KeyL);
    }
    if n == "M"@ {
        lemma_written(name, Key::KeyM);
    }
    if n == "N"@ {
        lemma_written(name, Key::KeyN);
    }
    if n == "O"@ {
        lemma_written(name, Key::KeyO);
    }
    if n == "P"@ {
        lemma_written(name, Key::KeyP);
    }
    if n == "Q"@ {
        lemma_written(name, Key::KeyQ);
    }
    if n == "R"@ {
        lemma_written(name, Key::KeyR);
    }
    if n == "S"@ {
        lemma_written(name, Key::KeyS);
    }
    if n == "T"@ {
        lemma_written(name, Key::KeyT);
    }
    if n == "U"@ {
        lemma_written(name, Key::KeyU);
    }
    if n == "V"@ {
        lemma_written(name, Key::KeyV);
    }
    if n == "W"@ {
        lemma_written(name, Key::KeyW);
    }
    if n == "X"@ {
        lemma_written(name, Key::KeyX);
    }
    if n == "Y"@ {
        lemma_written(name, Key::KeyY);
    }
    if n == "Z"@ {
        lemma_written(name, Key::KeyZ);
    }
    if n == "F1"@ {
        lemma_written(name, Key::F1);
    }
    if n == "F2"@ {
        lemma_written(name, Key::F2);
    }
    if n == "F3"@ {
        lemma_written(name, Key::F3);
    }
    if n == "F4"@ {
        lemma_written(name, Key::F4);
    }
    if n == "F5"@ {
        lemma_written(name, Key::F5);
    }
    if n == "F6"@ {
        lemma_written(name, Key::F6);
    }
    if n == "F7"@ {
        lemma_written(name, Key::F7);
    }
    if n == "F8"@ {
        lemma_written(name, Key::F8);
    }
    if n == "F9"@ {
        lemma_written(name, Key::F9);
    }
    if n == "F10"@ {
        lemma_written(name, Key::F10);
    }
    if n == "F11"@ {
        lemma_written(name, Key::F11);
    }
    if n == "F12"@ {
        lemma_written(name, Key::F12);
    }
    if n == "LALT"@ {
        lemma_written(name, Key::Alt);
    }
    if n == "RALT"@ {
        lemma_written(name, Key::AltGr);
    }
    if n == "TAB"@ {
        lemma_written(name, Key::Tab);
    }
    if n == "SPACE"@ {
        lemma_written(name, Key::Space);
    }
    if n == "ENTER"@ {
        lemma_written(name, Key::Return);
    }
    if n == "BACKSPACE"@ {
        lemma_written(name, Key::Backspace);
    }
    if n == "DEL"@ {
        lemma_written(name, Key::Delete);
    }
    if n == "INSERT"@ {
        lemma_written(name, Key::Insert);
    }
    if n == "HOME"@ {
        lemma_written(name, Key::Home);
    }
    if n == "END"@ {
        lemma_written(name, Key::End);
    }
    if n == "PAGEUP"@ {
        lemma_written(name, Key::PageUp);
    }
    if n == "PAGEDOWN"@ {
        lemma_written(name, Key::PageDown);
    }
    if n == "ARROW_LEFT"@ {
        lemma_written(name, Key::LeftArrow);
    }
    if n == "ARROW_RIGHT"@ {
        lemma_written(name, Key::RightArrow);
    }
    if n == "ARROW_UP"@ {
        lemma_written(name, Key::UpArrow);
    }
    if n == "ARROW_DOWN"@ {
        lemma_written(name, Key::DownArrow);
    }
    if n == "CAPSLOCK"@ {
        lemma_written(name, Key::CapsLock);
    }
    if n == "SCROLLLOCK"@ {
        lemma_written(name, Key::ScrollLock);
    }
    if n == "NUMLOCK"@ {
        lemma_written(name, Key::NumLock);
    }
    if n == "PRINTSCREEN"@ {
        lemma_written(name, Key::PrintScreen);
    }
    if n == "PAUSE"@ {
        lemma_written(name, Key::Pause);
    }
    if n == "PERIOD"@ {
        lemma_written(name, Key::Dot);
    }
    if n == "COMMA"@ {
        lemma_written(name, Key::Comma);
    }
    if n == "SLASH"@ {
        lemma_written(name, Key::Slash);
    }
    if n == "BACKSLASH"@ {
        lemma_written(name, Key::BackSlash);
    }
    if n == "MINUS"@ {
        lemma_written(name, Key::Minus);
    }
    if n == "EQUALS"@ {
        lemma_written(name, Key::Equal);
    }
    if n == "LBRACKET"@ {
        lemma_written(name, Key::LeftBracket);
    }
    if n == "RBRACKET"@ {
        lemma_written(name, Key::RightBracket);
    }
    if n == "SEMICOLON"@ {
        lemma_written(name, Key::SemiColon);
    }
    if n == "APOSTROPHE"@ {
        lemma_written(name, Key::Quote);
    }
    if n == "GRAVE"@ {
        lemma_written(name, Key::BackQuote);
    }
}

/// A pressed key is stored under the name that it is documented with; escape, a
/// modifier and a key without a name are not stored.
pub proof fn keys_are_stored_under_their_names(code: u32)
    ensures
        key_label(Key::Num0) == Some("0"@),
        key_label(Key::Num1) == Some("1"@),
        key_label(Key::Num2) == Some("2"@),
        key_label(Key::Num3) == Some("3"@),
        key_label(Key::Num4) == Some("4"@),
        key_label(Key::Num5) == Some("5"@),
        key_label(Key::Num6) == Some("6"@),
        key_label(Key::Num7) == Some("7"@),
        key_label(Key::Num8) == Some("8"@),
        key_label(Key::Num9) == Some("9"@),
        key_label(Key::KeyA) == Some("A"@),
        key_label(Key::KeyB) == Some("B"@),
        key_label(Key::KeyC) == Some("C"@),
        key_label(Key::KeyD) == Some("D"@),
        key_label(Key::KeyE) == Some("E"@),
        key_label(Key::KeyF) == Some("F"@),
        key_label(Key::KeyG) == Some("G"@),
        key_label(Key::KeyH) == Some("H"@),
        key_label(Key::KeyI) == Some("I"@),
        key_label(Key::KeyJ) == Some("J"@),
        key_label(Key::KeyK) == Some("K"@),
        key_label(Key::KeyL) == Some("L"@),
        key_label(Key::KeyM) == Some("M"@),
        key_label(Key::KeyN) == Some("N"@),
        key_label(Key::KeyO) == Some("O"@),
        key_label(Key::KeyP) == Some("P"@),
        key_label(Key::KeyQ) == Some("Q"@),
        key_label(Key::KeyR) == Some("R"@),
        key_label(Key::KeyS) == Some("S"@),
        key_label(Key::KeyT) == Some("T"@),
        key_label(Key::KeyU) == Some("U"@),
        key_label(Key::KeyV) == Some("V"@),
        key_label(Key::KeyW) == Some("W"@),
        key_label(Key::KeyX) == Some("X"@),
        key_label(Key::KeyY) == Some("Y"@),
        key_label(Key::KeyZ) == Some("Z"@),
        key_label(Key::F1) == Some("F1"@),
        key_label(Key::F2) == Some("F2"@),
        key_label(Key::F3) == Some("F3"@),
        key_label(Key::F4) == Some("F4"@),
        key_label(Key::F5) == Some("F5"@),
        key_label(Key::F6) == Some("F6"@),
        key_label(Key::F7) == Some("F7"@),
        key_label(Key::F8) == Some("F8"@),
        key_label(Key::F9) == Some("F9"@),
        key_label(Key::F10) == Some("F10"@),
        key_label(Key::F11) == Some("F11"@),
        key_label(Key::F12) == Some("F12"@),
        key_label(Key::Alt) == Some("LALT"@),
        key_label(Key::AltGr) == Some("RALT"@),
        key_label(Key::Tab) == Some("TAB"@),
        key_label(Key::Space) == Some("SPACE"@),
        key_label(Key::Return) == Some("ENTER"@),
        key_label(Key::Backspace) == Some("BACKSPACE"@),
        key_label(Key::Delete) == Some("DEL"@),
        key_label(Key::Insert) == Some("INSERT"@),
        key_label(Key::Home) == Some("HOME"@),
        key_label(Key::End) == Some("END"@),
        key_label(Key::PageUp) == Some("PAGEUP"@),
        key_label(Key::PageDown) == Some("PAGEDOWN"@),
        key_label(Key::LeftArrow) == Some("ARROW_LEFT"@),
        key_label(Key::RightArrow) == Some("ARROW_RIGHT"@),
        key_label(Key::UpArrow) == Some("ARROW_UP"@),
        key_label(Key::DownArrow) == Some("ARROW_DOWN"@),
        key_label(Key::CapsLock) == Some("CAPSLOCK"@),
        key_label(Key::ScrollLock) == Some("SCROLLLOCK"@),
        key_label(Key::NumLock) == Some("NUMLOCK"@),
        key_label(Key::PrintScreen) == Some("PRINTSCREEN"@),
        key_label(Key::Pause) == Some("PAUSE"@),
        key_label(Key::Dot) == Some("PERIOD"@),
        key_label(Key::Comma) == Some("COMMA"@),
        key_label(Key::Slash) == Some("SLASH"@),
        key_label(Key::BackSlash) == Some("BACKSLASH"@),
        key_label(Key::Minus) == Some("MINUS"@),
        key_label(Key::Equal) == Some("EQUALS"@),
        key_label(Key::LeftBracket) == Some("LBRACKET"@),
        key_label(Key::RightBracket) == Some("RBRACKET"@),
        key_label(Key::SemiColon) == Some("SEMICOLON"@),
        key_label(Key::Quote) == Some("APOSTROPHE"@),
        key_label(Key::BackQuote) == Some("GRAVE"@),
        key_label(Key::Escape) is None,
        key_label(Key::ControlLeft) is None,
        key_label(Key::MetaLeft) is None,
        key_label(Key::Other(code)) is None,
{
}

proof fn lemma_character_labels(c: char)
    ensures
        text::is_digit(c) ==> key_label(digit_key(c)) == Some(seq![c]),
        'A' <= c <= 'Z' ==> key_label(letter_key(c)) == Some(seq![c]),
{
    reveal_strlit("0");
    reveal_strlit("1");
    reveal_strlit("2");
    reveal_strlit("3");
    reveal_strlit("4");
    reveal_strlit("5");
    reveal_strlit("6");
    reveal_strlit("7");
    reveal_strlit("8");
    reveal_strlit("9");
    reveal_strlit("A");
    reveal_strlit("B");
    reveal_strlit("C");
    reveal_strlit("D");
    reveal_strlit("E");
    reveal_strlit("F");
    reveal_strlit("G");
    reveal_strlit("H");
    reveal_strlit("I");
    reveal_strlit("J");
    reveal_strlit("K");
    reveal_strlit("L");
    reveal_strlit("M");
    reveal_strlit("N");
    reveal_strlit("O");
    reveal_strlit("P");
    reveal_strlit("Q");
    reveal_strlit("R");
    reveal_strlit("S");
    reveal_strlit("T");
    reveal_strlit("U");
    reveal_strlit("V");
    reveal_strlit("W");
    reveal_strlit("X");
    reveal_strlit("Y");
    reveal_strlit("Z");
    if text::is_digit(c) {
        assert(key_label(digit_key(c))->0 =~= seq![c]);
    }
    if 'A' <= c && c <= 'Z' {
        assert(key_label(letter_key(c))->0 =~= seq![c]);
    }
}

proof fn lemma_function_labels(n: nat)
    requires
        1 <= n <= 12,
    ensures
        function_key(n) is Some,
        key_label(function_key(n)->0) == Some(seq!['F'] + text::decimal(n)),
{
    reveal_strlit("F1");
    reveal_strlit("F2");
    reveal_strlit("F3");
    reveal_strlit("F4");
    reveal_strlit("F5");
    reveal_strlit("F6");
    reveal_strlit("F7");
    reveal_strlit("F8");
    reveal_strlit("F9");
    reveal_strlit("F10");
    reveal_strlit("F11");
    reveal_strlit("F12");
    reveal_with_fuel(text::decimal, 3);
    assert(key_label(function_key(n)->0)->0 =~= seq!['F'] + text::decimal(n));
}

/// A name stands for a key only where the key is stored under that name, where
/// it is one of the four other names, or where it is `F` and the number of a
/// function key, however that is written.
pub proof fn no_other_name_is_a_key(name: Seq<char>, k: Key)
    requires
        key_named(name) == Some(k),
    ensures
        ({
            let n = text::upper(name);
            ||| key_label(k) == Some(n)
            ||| n == "ALT"@ && k == Key::Alt
            ||| n == "ALTGR"@ && k == Key::AltGr
            ||| n == "MENU"@ && k == Key::AltGr
            ||| n == "DELETE"@ && k == Key::Delete
            ||| n.len() > 1 && n[0] == 'F' && exists|i: nat|
                1 <= i <= 12 && text::number(n.skip(1)) == Some(i) && key_label(k) == Some(
                    seq!['F'] + #[trigger] text::decimal(i),
                )
        }),
{
    let n = text::upper(name);
    if n.len() == 1 && (text::is_digit(n[0]) || 'A' <= n[0] <= 'Z') {
        lemma_character_labels(n[0]);
        assert(n =~= seq![n[0]]);
    } else if n.len() > 0 && n[0] == 'F' && text::number(n.skip(1)) is Some && function_key(
        text::number(n.skip(1))->0,
    ) is Some {
        let i = text::number(n.skip(1))->0;
        lemma_function_labels(i);
        assert(key_label(k) == Some(seq!['F'] + text::decimal(i)));
    } else {
        assert(special_key(n) == Some(k));
    }
}

/// The mouse buttons have one name each, in any case: `MB1` is the left one,
/// `MB2` the right one and `MB3` the middle one. None of these is a key.
pub proof fn buttons_have_their_names(name: Seq<char>)
    ensures
        button_named(name) == Some(Button::Left) <==> text::upper(name) == "MB1"@,
        button_named(name) == Some(Button::Right) <==> text::upper(name) == "MB2"@,
        button_named(name) == Some(Button::Middle) <==> text::upper(name) == "MB3"@,
        button_named(name) is Some ==> key_named(name) is None,
        button_label(Button::Left) == "MB1"@,
        button_label(Button::Right) == "MB2"@,
        button_label(Button::Middle) == "MB3"@,
{
    reveal_strlit("MB1");
    reveal_strlit("MB2");
    reveal_strlit("MB3");
    assert("MB1"@[2] == '1' && "MB2"@[2] == '2' && "MB3"@[2] == '3');
    lemma_other_names(text::upper(name));
}

/// `part` is the name of a modifier before the main key, and `k` its key.
pub open spec fn is_modifier(part: Seq<char>, k: Key) -> bool {
    ||| is_plain_modifier(part, k)
    ||| text::upper(part) == "LALT"@ && k == Key::Alt
    ||| text::upper(part) == "RALT"@ && k == Key::AltGr
}

/// `part` is the name of a modifier wherever it stands, and `k` its key.
pub open spec fn is_plain_modifier(part: Seq<char>, k: Key) -> bool {
    ||| text::upper(part) == "CTRL"@ && k == Key::ControlLeft
    ||| text::upper(part) == "ALT"@ && k == Key::Alt
    ||| text::upper(part) == "WIN"@ && k == Key::MetaLeft
}

proof fn lemma_modifier(part: Seq<char>, k: Key)
    requires
        is_modifier(part, k),
    ensures
        is_plain_modifier(part, k) ==> plain_modifier(part) == Some(k),
        !is_plain_modifier(part, k) ==> plain_modifier(part) is None && side_modifier(part)
            == Some(k) && key_named(part) is Some,
        !part.contains('+'),
{
    reveal_strlit("CTRL");
    reveal_strlit("ALT");
    reveal_strlit("WIN");
    reveal_strlit("LALT");
    reveal_strlit("RALT");
    let n = text::upper(part);
    assert("CTRL"@[0] == 'C' && "ALT"@[0] == 'A' && "WIN"@[0] == 'W' && "LALT"@[0] == 'L'
        && "RALT"@[0] == 'R');
    names_stand_for_their_keys(part);
    assert forall|i: int| 0 <= i < part.len() implies part[i] != '+' by {
        assert(n[i] == text::upper_char(part[i]));
        assert(n[i] != '+');
    }
}

proof fn lemma_joined_no_button(parts: Seq<Seq<char>>)
    requires
        parts.len() > 1,
    ensures
        button_named(text::join(parts, '+')) is None,
{
    let name = text::join(parts, '+');
    let p = text::join(parts.drop_last(), '+').len() as int;
    assert(name[p] == '+');
    assert(text::upper(name)[p] == '+');
    reveal_strlit("MB1");
    reveal_strlit("MB2");
    reveal_strlit("MB3");
    assert(!"MB1"@.contains('+') && !"MB2"@.contains('+') && !"MB3"@.contains('+'));
    assert(text::upper(name).contains('+'));
}

proof fn lemma_chord_modifiers(
    parts: Seq<Seq<char>>,
    keys: Seq<Key>,
    main: int,
    k: int,
)
    requires
        0 <= main < parts.len(),
        keys.len() == parts.len(),
        forall|i: int| 0 <= i < main ==> is_modifier(#[trigger] parts[i], keys[i]),
        forall|i: int| main < i < parts.len() ==> is_plain_modifier(#[trigger] parts[i], keys[i]),
        plain_modifier(parts[main]) is None,
        0 <= k <= parts.len(),
    ensures
        k <= main ==> modifiers(parts, main, k) == keys.take(k),
        k > main ==> modifiers(parts, main, k) == keys.take(main) + keys.subrange(main + 1, k)
            && main_position(parts, k) == Some(main),
    decreases k,
{
    if k == 0 {
        assert(keys.take(0) =~= Seq::<Key>::empty());
    } else {
        lemma_chord_modifiers(parts, keys, main, k - 1);
        let part = parts[k - 1];
        if k - 1 < main {
            lemma_modifier(part, keys[k - 1]);
            assert(keys.take(k) =~= keys.take(k - 1).push(keys[k - 1]));
        } else if k - 1 == main {
            assert(keys.take(main) + keys.subrange(main + 1, k) =~= keys.take(main));
        } else {
            lemma_modifier(part, keys[k - 1]);
            assert(keys.take(main) + keys.subrange(main + 1, k) =~= (keys.take(main)
                + keys.subrange(main + 1, k - 1)).push(keys[k - 1]));
        }
    }
}

/// A binding of several names joined by plus signs taps its main key with all
/// the modifiers, in their order: `CTRL`, `ALT`, `WIN`, `LALT` and `RALT` before
/// the main key, and the first three of them behind it as well. The listener
/// recognises it by the key that stands last.
pub proof fn bindings_press_their_modifiers(
    before: Seq<Seq<char>>,
    keys_before: Seq<Key>,
    main: Seq<char>,
    k: Key,
    behind: Seq<Seq<char>>,
    keys_behind: Seq<Key>,
)
    requires
        before.len() == keys_before.len(),
        behind.len() == keys_behind.len(),
        forall|i: int| 0 <= i < before.len() ==> is_modifier(#[trigger] before[i], keys_before[i]),
        forall|i: int|
            0 <= i < behind.len() ==> is_plain_modifier(#[trigger] behind[i], keys_behind[i]),
        key_named(main) == Some(k),
        text::upper(main) != "ALT"@,
        !main.contains('+'),
    ensures
        ({
            let name = text::join(before + seq![main] + behind, '+');
            &&& tap_of(name) == key_tap(keys_before + keys_behind, k)
            &&& behind.len() == 0 ==> binding_key(name) == Some(k)
        }),
{
    let parts = before + seq![main] + behind;
    let keys = keys_before + seq![k] + keys_behind;
    let m = before.len() as int;
    let name = text::join(parts, '+');
    lemma_other_names(text::upper(main));
    assert(plain_modifier(main) is None);
    assert forall|i: int| 0 <= i < parts.len() implies !(#[trigger] parts[i]).contains('+') && (
    plain_modifier(parts[i]) is Some || key_named(parts[i]) is Some) by {
        if i < m {
            assert(parts[i] == before[i]);
            lemma_modifier(before[i], keys_before[i]);
        } else if i > m {
            assert(parts[i] == behind[i - m - 1]);
            lemma_modifier(behind[i - m - 1], keys_behind[i - m - 1]);
        }
    }
    text::join_then_split(parts, '+');
    assert(all_named(parts));
    assert forall|i: int| 0 <= i < m implies is_modifier(#[trigger] parts[i], keys[i]) by {
        assert(parts[i] == before[i]);
    }
    assert forall|i: int| m < i < parts.len() implies is_plain_modifier(
        #[trigger] parts[i],
        keys[i],
    ) by {
        assert(parts[i] == behind[i - m - 1]);
    }
    assert(parts[m] == main);
    lemma_chord_modifiers(parts, keys, m, parts.len() as int);
    assert(keys.take(m) =~= keys_before);
    assert(keys.subrange(m + 1, parts.len() as int) =~= keys_behind);
    if parts.len() > 1 {
        lemma_joined_no_button(parts);
    } else {
        assert(parts =~= seq![main]);
        assert(name == main);
        buttons_have_their_names(main);
    }
    if behind.len() == 0 {
        assert(parts.last() == main);
    }
}

/// A name that is no button and of which one part is neither a modifier nor a
/// key taps nothing and has no success, and so does one without a main key.
pub proof fn unknown_names_tap_nothing(parts: Seq<Seq<char>>, i: int)
    requires
        0 <= i < parts.len(),
        forall|j: int| 0 <= j < parts.len() ==> !(#[trigger] parts[j]).contains('+'),
        button_named(text::join(parts, '+')) is None,
        (key_named(parts[i]) is None && !(exists|k: Key| is_plain_modifier(parts[i], k))) || (
        forall|j: int|
            0 <= j < parts.len() ==> text::upper(#[trigger] parts[j]) == "CTRL"@ || text::upper(
                parts[j],
            ) == "ALT"@ || text::upper(parts[j]) == "WIN"@),
    ensures
        tap_of(text::join(parts, '+')).step() == TapStep::Done(false),
{
    text::join_then_split(parts, '+');
    if forall|j: int|
        0 <= j < parts.len() ==> text::upper(#[trigger] parts[j]) == "CTRL"@ || text::upper(
            parts[j],
        ) == "ALT"@ || text::upper(parts[j]) == "WIN"@ {
        lemma_no_main(parts, parts.len() as int);
    } else {
        assert(plain_modifier(parts[i]) is None) by {
            if let Some(k) = plain_modifier(parts[i]) {
                assert(is_plain_modifier(parts[i], k));
            }
        }
    }
}

proof fn lemma_no_main(parts: Seq<Seq<char>>, k: int)
    requires
        0 <= k <= parts.len(),
        forall|j: int|
            0 <= j < parts.len() ==> text::upper(#[trigger] parts[j]) == "CTRL"@ || text::upper(
                parts[j],
            ) == "ALT"@ || text::upper(parts[j]) == "WIN"@,
    ensures
        main_position(parts, k) is None,
    decreases k,
{
    if k > 0 {
        assert(plain_modifier(parts[k - 1]) is Some);
        lemma_no_main(parts, k - 1);
    }
}

/// A pressed key or button is held for eight milliseconds: after its press comes
/// a wait, and only then its release, whether the press succeeded or not.
pub proof fn presses_are_held(t: TapView, pressed: bool, waited: bool)
    requires
        t.well_formed(),
        t.phase == TapPhase::Press,
    ensures
        t.target matches TapTarget::Key(k) ==> t.step() == TapStep::Send(InputEvent::KeyPress(k)),
        t.target matches TapTarget::Button(b) ==> t.step() == TapStep::Send(
            InputEvent::ButtonPress(b),
        ),
        t.after(pressed).step() == TapStep::Wait(8),
        t.target matches TapTarget::Key(k) ==> t.after(pressed).after(waited).step()
            == TapStep::Send(InputEvent::KeyRelease(k)),
        t.target matches TapTarget::Button(b) ==> t.after(pressed).after(waited).step()
            == TapStep::Send(InputEvent::ButtonRelease(b)),
{
}

} // verus!
