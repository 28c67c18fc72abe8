use numcal::hid::HidEvent;
use numcal::keypad::{Key, KeyEvent};
use numcal::modes::{
    key_name_of, BootMode, CurrentMode, FlashMode, Mode, ModeSwitch, NumpadMode,
};

fn press(key: Key) -> KeyEvent {
    KeyEvent { key, pressed: true }
}

fn release(key: Key) -> KeyEvent {
    KeyEvent { key, pressed: false }
}

#[test]
fn modes_of_the_columns() {
    assert_eq!(Mode::from_column(0), Some(Mode::Numpad));
    assert_eq!(Mode::from_column(1), Some(Mode::Calculator));
    assert_eq!(Mode::from_column(2), Some(Mode::Reserved2));
    assert_eq!(Mode::from_column(3), Some(Mode::Reserved3));
    assert_eq!(Mode::from_column(4), None);
    assert_eq!(Mode::default(), Mode::Numpad);
    assert_eq!(Mode::Numpad.name(), "[NUM]");
    assert_eq!(Mode::Calculator.name(), "[CALC]");
    assert_eq!(Mode::Reserved2.name(), "[M2]");
    assert_eq!(Mode::Reserved3.name(), "[M3]");
}

#[test]
fn function_key_with_lock_asks_for_its_task_once() {
    let mut switch = ModeSwitch::new();
    assert!(switch.running);
    assert_eq!(switch.target, 0);
    assert!(switch.on_key_event(press(Key::F4), true));
    assert_eq!(switch.target, 3);
    assert!(!switch.running);
    switch.start();
    assert!(switch.running);
    // held or pressed again: nothing more
    assert!(!switch.on_key_event(press(Key::F4), true));
    assert!(switch.running);
    assert_eq!(switch.target, 3);
    assert!(switch.on_key_event(press(Key::F2), true));
    assert_eq!(switch.target, 1);
    assert!(switch.on_key_event(press(Key::F3), true));
    assert_eq!(switch.target, 2);
    assert!(switch.on_key_event(press(Key::F1), true));
    assert_eq!(switch.target, 0);
}

#[test]
fn other_events_ask_for_nothing() {
    let mut switch = ModeSwitch::new();
    assert!(!switch.on_key_event(press(Key::F4), false));
    assert!(!switch.on_key_event(release(Key::F4), true));
    assert!(!switch.on_key_event(press(Key::D5), true));
    assert!(!switch.on_key_event(press(Key::Lock), true));
    assert!(!switch.on_key_event(press(Key::F1), true));
    assert!(switch.running);
    assert_eq!(switch.target, 0);
}

#[test]
fn next_task_by_number() {
    let boot = CurrentMode::BootMode(BootMode::new());
    assert!(matches!(boot.next(0), CurrentMode::NumpadMode(_)));
    let boot = CurrentMode::BootMode(BootMode::new());
    assert!(matches!(boot.next(3), CurrentMode::FlashMode(_)));
    let boot = CurrentMode::BootMode(BootMode::new());
    assert!(matches!(boot.next(1), CurrentMode::BootMode(_)));
    let numpad = CurrentMode::NumpadMode(NumpadMode::new());
    assert!(matches!(numpad.next(2), CurrentMode::NumpadMode(_)));
    let flash = CurrentMode::FlashMode(FlashMode::new());
    assert!(matches!(flash.next(200), CurrentMode::FlashMode(_)));
}

#[test]
fn numpad_tells_the_keyboard_and_the_display() {
    let numpad = NumpadMode::new();
    let action = numpad.handle(press(Key::D7)).unwrap();
    assert!(matches!(action.hid, Some(HidEvent::SetKey(0x5F))));
    assert_eq!(action.text.as_str(), "PRESS  D7");
    let action = numpad.handle(release(Key::Enter)).unwrap();
    assert!(matches!(action.hid, Some(HidEvent::ReleaseKey(0x58))));
    assert_eq!(action.text.as_str(), "RELEASE  Enter");
    let action = numpad.handle(press(Key::Lock)).unwrap();
    assert!(matches!(action.hid, Some(HidEvent::SetKey(0x53))));
    assert_eq!(action.text.as_str(), "PRESS  Lock");
    let action = numpad.handle(press(Key::NC)).unwrap();
    assert!(action.hid.is_none());
    assert_eq!(action.text.as_str(), "PRESS  NC");
}

#[test]
fn numpad_leaves_the_function_keys_alone() {
    let numpad = NumpadMode::new();
    for key in [Key::F1, Key::F2, Key::F3, Key::F4] {
        assert!(numpad.handle(press(key)).is_none());
        assert!(numpad.handle(release(key)).is_none());
    }
}

#[test]
fn names_of_the_keys() {
    assert_eq!(key_name_of(Key::F1), "F1");
    assert_eq!(key_name_of(Key::Lock), "Lock");
    assert_eq!(key_name_of(Key::Div), "Div");
    assert_eq!(key_name_of(Key::Mul), "Mul");
    assert_eq!(key_name_of(Key::Sub), "Sub");
    assert_eq!(key_name_of(Key::Add), "Add");
    assert_eq!(key_name_of(Key::Enter), "Enter");
    assert_eq!(key_name_of(Key::Dot), "Dot");
    assert_eq!(key_name_of(Key::D0), "D0");
    assert_eq!(key_name_of(Key::D9), "D9");
    assert_eq!(key_name_of(Key::NC), "NC");
    for key in [Key::F2, Key::D4, Key::Enter] {
        assert_eq!(key_name_of(key), format!("{:?}", key));
    }
}

#[test]
fn flash_flips_each_step() {
    let mut flash = FlashMode::new();
    assert!(!flash.step());
    assert!(flash.step());
    assert!(!flash.step());
}

#[test]
fn checkerboard_fills_every_other_square() {
    let flash = FlashMode::new();
    let plain = flash.draw_checkerboard(false);
    let inverted = flash.draw_checkerboard(true);
    assert_eq!(plain.len(), 64);
    assert_eq!(inverted.len(), 64);
    assert_eq!(&plain[..3], [(0, 0), (16, 0), (32, 0)]);
    assert_eq!(plain[8], (8, 8));
    assert_eq!(&inverted[..3], [(8, 0), (24, 0), (40, 0)]);
    assert_eq!(plain[63], (120, 56));
    assert_eq!(inverted[63], (112, 56));
    for square in &plain {
        assert!(!inverted.contains(square));
        assert_eq!((square.0 / 8 + square.1 / 8) % 2, 0);
    }
}
