use numcal::hotkeys::{baud_reset_armed, baud_reset_due, baud_session_over, reboot_requested};
use numcal::keypad::{Key, KeyEvent, Keypad};

fn pad_with_top_row(held: [bool; 4]) -> Keypad {
    let mut pad = Keypad::new_at(1, 0);
    let mut samples = [[false; 4]; 6];
    samples[0] = held;
    pad.scan_at(&samples, 0);
    pad.scan_at(&samples, 1);
    pad
}

#[test]
fn chord_of_all_function_keys_asks_for_the_boot_loader() {
    let pad = pad_with_top_row([true; 4]);
    for key in [Key::F1, Key::F2, Key::F3, Key::F4] {
        assert!(reboot_requested(&pad, KeyEvent { key, pressed: true }));
        assert!(!reboot_requested(&pad, KeyEvent { key, pressed: false }));
    }
    assert!(!reboot_requested(&pad, KeyEvent { key: Key::Lock, pressed: true }));
    assert!(!reboot_requested(&pad, KeyEvent { key: Key::D5, pressed: true }));
}

#[test]
fn chord_needs_all_four_keys() {
    for missing in 0..4 {
        let mut held = [true; 4];
        held[missing] = false;
        let pad = pad_with_top_row(held);
        assert!(!reboot_requested(&pad, KeyEvent { key: Key::F1, pressed: true }));
        assert!(!reboot_requested(&pad, KeyEvent { key: Key::F4, pressed: true }));
    }
}

#[test]
fn baud_rate_of_1200_and_a_dropped_line_restart() {
    assert!(baud_reset_armed(1200));
    assert!(!baud_reset_armed(9600));
    assert!(!baud_reset_armed(0));
    assert!(baud_reset_due(1200, false));
    assert!(!baud_reset_due(1200, true));
    assert!(!baud_reset_due(115200, false));
    assert!(baud_session_over(false, 0));
    assert!(!baud_session_over(true, 0));
    assert!(!baud_session_over(false, 1200));
}
