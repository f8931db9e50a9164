use zombies_weapon_tool::keymap::{
    binding_main_key, binding_to_button, main_key, mouse_button_name, parse_chord, rdev_key_name,
    tap_binding, Button, InputEvent, Key, TapStep, TAP_DELAY_MS,
};

#[test]
fn main_key_parses_digits_letters_fkeys() {
    assert_eq!(main_key("2"), Some(Key::Num2));
    assert_eq!(main_key("3"), Some(Key::Num3));
    assert_eq!(main_key("A"), Some(Key::KeyA));
    assert_eq!(main_key("Z"), Some(Key::KeyZ));
    assert_eq!(main_key("F5"), Some(Key::F5));
    assert_eq!(main_key("F12"), Some(Key::F12));
}

#[test]
fn main_key_parses_named_keys() {
    assert_eq!(main_key("LALT"), Some(Key::Alt));
    assert_eq!(main_key("RALT"), Some(Key::AltGr));
    assert_eq!(main_key("TAB"), Some(Key::Tab));
    assert_eq!(main_key("ENTER"), Some(Key::Return));
    assert_eq!(main_key("ARROW_LEFT"), Some(Key::LeftArrow));
    assert_eq!(main_key("SPACE"), Some(Key::Space));
}

#[test]
fn binding_main_key_strips_combo_prefix() {
    assert_eq!(binding_main_key("LALT"), Some(Key::Alt));
    assert_eq!(binding_main_key("CTRL+1"), Some(Key::Num1));
    assert_eq!(binding_main_key("ALT+F5"), Some(Key::F5));
}

#[test]
fn mouse_buttons() {
    assert_eq!(binding_to_button("MB1"), Some(Button::Left));
    assert_eq!(binding_to_button("MB2"), Some(Button::Right));
    assert_eq!(binding_to_button("MB3"), Some(Button::Middle));
    assert_eq!(binding_to_button("2"), None);
}

#[test]
fn chord_parses() {
    let (mods, main) = parse_chord("CTRL+1").unwrap();
    assert_eq!(mods, vec![Key::ControlLeft]);
    assert_eq!(main, Key::Num1);
}

#[test]
fn rdev_key_name_maps_back() {
    assert_eq!(rdev_key_name(Key::Num2).as_deref(), Some("2"));
    assert_eq!(rdev_key_name(Key::KeyA).as_deref(), Some("A"));
    assert_eq!(rdev_key_name(Key::F5).as_deref(), Some("F5"));
    assert_eq!(rdev_key_name(Key::Alt).as_deref(), Some("LALT"));
    assert_eq!(rdev_key_name(Key::AltGr).as_deref(), Some("RALT"));
    assert_eq!(rdev_key_name(Key::Escape), None);
}

/// Runs a tap to its end; every event is sent with the given outcome.
fn run(name: &str, ok: bool) -> (Vec<InputEvent>, Vec<u64>, bool) {
    let mut tap = tap_binding(name);
    let mut sent = Vec::new();
    let mut waits = Vec::new();
    for _ in 0..100 {
        match tap.step() {
            TapStep::Send(e) => {
                sent.push(e);
                tap.advance(ok);
            }
            TapStep::Wait(ms) => {
                waits.push(ms);
                tap.advance(true);
            }
            TapStep::Done(r) => return (sent, waits, r),
        }
    }
    panic!("the tap does not end");
}

#[test]
fn tap_binding_invalid_name_returns_false() {
    let (sent, _, result) = run("INVALID_KEY_NAME_XYZ", true);
    assert!(!result);
    assert!(sent.is_empty());
}

#[test]
fn tap_binding_empty_returns_false() {
    let (sent, _, result) = run("", true);
    assert!(!result);
    assert!(sent.is_empty());
}

#[test]
fn a_tap_of_a_button_presses_and_releases_it() {
    let (sent, waits, result) = run("MB2", true);
    assert!(result);
    assert_eq!(
        sent,
        vec![InputEvent::ButtonPress(Button::Right), InputEvent::ButtonRelease(Button::Right)]
    );
    assert_eq!(waits, vec![TAP_DELAY_MS]);
}

#[test]
fn a_tap_of_a_combination_holds_its_modifiers() {
    let (sent, _, result) = run("CTRL+1", true);
    assert!(result);
    assert_eq!(
        sent,
        vec![
            InputEvent::KeyPress(Key::ControlLeft),
            InputEvent::KeyPress(Key::Num1),
            InputEvent::KeyRelease(Key::Num1),
            InputEvent::KeyRelease(Key::ControlLeft),
        ]
    );
}

#[test]
fn a_failed_tap_presses_nothing_more() {
    let (sent, _, result) = run("2", false);
    assert!(!result);
    assert_eq!(sent[0], InputEvent::KeyPress(Key::Num2));
}

#[test]
fn names_of_bindings_ignore_case() {
    assert_eq!(main_key("f12"), Some(Key::F12));
    assert_eq!(binding_main_key("ctrl+a"), Some(Key::KeyA));
    assert_eq!(binding_to_button("mb3"), Some(Button::Middle));
    assert_eq!(parse_chord("ctrl+1"), Some((vec![Key::ControlLeft], Key::Num1)));
    assert_eq!(main_key("nothing"), None);
    assert_eq!(main_key("F13"), None);
}

#[test]
fn both_alt_keys_combine() {
    assert_eq!(parse_chord("LALT+F5"), Some((vec![Key::Alt], Key::F5)));
    assert_eq!(parse_chord("RALT+2"), Some((vec![Key::AltGr], Key::Num2)));
    assert_eq!(parse_chord("CTRL+ALT+F5"), Some((vec![Key::ControlLeft, Key::Alt], Key::F5)));
    assert_eq!(parse_chord("LALT"), Some((vec![], Key::Alt)));
}

#[test]
fn the_names_of_buttons_read_back() {
    for b in [Button::Left, Button::Right, Button::Middle] {
        assert_eq!(binding_to_button(&mouse_button_name(b)), Some(b));
    }
}

#[test]
fn the_names_of_keys_read_back() {
    for k in [
        Key::Num0, Key::KeyQ, Key::F1, Key::F12, Key::Delete, Key::PageDown, Key::BackQuote,
        Key::Quote, Key::NumLock, Key::UpArrow, Key::AltGr,
    ] {
        let name = rdev_key_name(k).unwrap();
        assert_eq!(main_key(&name), Some(k));
        assert_eq!(binding_main_key(&name), Some(k));
    }
}
