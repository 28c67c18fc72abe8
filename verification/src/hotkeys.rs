//! When the pad restarts into its boot loader: by a chord of the four
//! function keys, or by a host that sets the serial line to 1200 baud and
//! drops it.

use crate::keypad::{Key, KeyEvent, Keypad};
use crate::modes::is_function_key;
use vstd::prelude::*;

verus! {

/// The baud rate by which a host asks for the boot loader.
pub const RESET_BAUD_RATE: u32 = 1200;

/// Whether the four function keys are all held.
pub open spec fn chord_held(pad: &Keypad) -> bool {
    &&& pad.key_held(Key::F1)
    &&& pad.key_held(Key::F2)
    &&& pad.key_held(Key::F3)
    &&& pad.key_held(Key::F4)
}

/// Whether a key event asks for the boot loader: a function key went down,
/// and with it all four function keys are held.
pub fn reboot_requested(pad: &Keypad, event: KeyEvent) -> (requested: bool)
    requires
        pad.wf(),
    ensures
        requested == (event.pressed && is_function_key(event.key) && chord_held(pad)),
{
    if !event.pressed {
        return false;
    }
    match event.key {
        Key::F1 | Key::F2 | Key::F3 | Key::F4 => {},
        _ => {
            return false;
        },
    }
    pad.key_pressed(Key::F1) && pad.key_pressed(Key::F2) && pad.key_pressed(Key::F3)
        && pad.key_pressed(Key::F4)
}

/// Whether the rate of the serial line is the one that asks for the boot
/// loader, so that the line is to be looked at again after a wait.
pub fn baud_reset_armed(data_rate: u32) -> (armed: bool)
    ensures
        armed == (data_rate == RESET_BAUD_RATE),
{
    data_rate == RESET_BAUD_RATE
}

/// Whether the pad restarts: the rate asked for it, and after the wait the
/// host has dropped the line.
pub fn baud_reset_due(data_rate: u32, dtr_after_wait: bool) -> (due: bool)
    ensures
        due == (data_rate == RESET_BAUD_RATE && !dtr_after_wait),
{
    baud_reset_armed(data_rate) && !dtr_after_wait
}

/// Whether the host has gone: the line is down and no rate is set.
pub fn baud_session_over(dtr: bool, data_rate: u32) -> (over: bool)
    ensures
        over == (!dtr && data_rate == 0),
{
    !dtr && data_rate == 0
}

} // verus!
