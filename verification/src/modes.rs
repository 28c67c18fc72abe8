//! The modes of the pad: what it does with its keys.
//!
//! Two things are called a mode. [`Mode`] is what the dispatcher routes key
//! events by: numpad, calculator, or one of two reserved modes. [`CurrentMode`]
//! is the task that owns the display: the boot screen, the numpad, or the
//! flashing test pattern. [`ModeSwitch`] holds the request to change it.

use crate::buffer::{buffer_new, buffer_push_str, buffer_text};
use crate::hid::HidEvent;
use crate::keypad::{hid_keycode, Key, KeyEvent};
use vstd::prelude::*;
use vstd::utf8::is_ascii_chars;

verus! {

/// What the dispatcher routes key events by.
#[derive(Clone, Copy, Debug, PartialEq, Eq, Structural)]
pub enum Mode {
    Numpad,
    Calculator,
    Reserved2,
    Reserved3,
}

/// The mode that a key of the mode row selects, by its column.
pub open spec fn mode_of_column(col: int) -> Option<Mode> {
    if col == 0 {
        Some(Mode::Numpad)
    } else if col == 1 {
        Some(Mode::Calculator)
    } else if col == 2 {
        Some(Mode::Reserved2)
    } else if col == 3 {
        Some(Mode::Reserved3)
    } else {
        None
    }
}

/// The tag that a mode shows in front of its text.
pub open spec fn mode_name(mode: Mode) -> Seq<char> {
    match mode {
        Mode::Numpad => "[NUM]"@,
        Mode::Calculator => "[CALC]"@,
        Mode::Reserved2 => "[M2]"@,
        Mode::Reserved3 => "[M3]"@,
    }
}

impl Default for Mode {
    /// The pad starts as a numpad.
    fn default() -> (mode: Mode)
        ensures
            mode == Mode::Numpad,
    {
        Mode::Numpad
    }
}

impl Mode {
    /// The mode that a key of the mode row selects, by its column.
    pub fn from_column(col: usize) -> (mode: Option<Mode>)
        ensures
            mode == mode_of_column(col as int),
    {
        if col == 0 {
            Some(Mode::Numpad)
        } else if col == 1 {
            Some(Mode::Calculator)
        } else if col == 2 {
            Some(Mode::Reserved2)
        } else if col == 3 {
            Some(Mode::Reserved3)
        } else {
            None
        }
    }

    /// The tag that the mode shows in front of its text.
    pub fn name(&self) -> (name: &'static str)
        ensures
            name@ == mode_name(*self),
    {
        match self {
            Mode::Numpad => "[NUM]",
            Mode::Calculator => "[CALC]",
            Mode::Reserved2 => "[M2]",
            Mode::Reserved3 => "[M3]",
        }
    }
}

/// The number of the task that a function key asks for. The other keys ask
/// for none.
pub open spec fn target_of_key(key: Key) -> Option<u8> {
    match key {
        Key::F1 => Some(0u8),
        Key::F2 => Some(1u8),
        Key::F3 => Some(2u8),
        Key::F4 => Some(3u8),
        _ => None,
    }
}

/// The request to change the task that owns the display: the number of the
/// task asked for, and whether the current one may go on.
#[derive(Clone, Copy, Debug)]
pub struct ModeSwitch {
    pub running: bool,
    pub target: u8,
}

impl ModeSwitch {
    /// What a key event makes of the request. A function key that goes down
    /// while `Lock` is held asks for its task; where that is another task than
    /// the one asked for before, the current one is told to stop.
    pub open spec fn after(self, event: KeyEvent, lock_held: bool) -> ModeSwitch {
        if !event.pressed || !lock_held {
            self
        } else {
            match target_of_key(event.key) {
                Some(target) => if self.target != target {
                    ModeSwitch { running: false, target }
                } else {
                    self
                },
                None => self,
            }
        }
    }

    /// No change asked for: the task with number 0, running.
    pub fn new() -> (switch: ModeSwitch)
        ensures
            switch == (ModeSwitch { running: true, target: 0 }),
    {
        ModeSwitch { running: true, target: 0 }
    }

    /// Takes a key event; `lock_held` says whether `Lock` is down.
    pub fn on_key_event(&mut self, event: KeyEvent, lock_held: bool) -> (changed: bool)
        ensures
            *final(self) == old(self).after(event, lock_held),
            changed == (*final(self) != *old(self)),
    {
        if !event.pressed || !lock_held {
            return false;
        }
        let next = match event.key {
            Key::F1 => 0u8,
            Key::F2 => 1u8,
            Key::F3 => 2u8,
            Key::F4 => 3u8,
            _ => {
                return false;
            },
        };
        if self.target != next {
            self.target = next;
            self.running = false;
            true
        } else {
            false
        }
    }

    /// The task that was asked for starts: it may run until another is asked
    /// for.
    pub fn start(&mut self)
        ensures
            *final(self) == (ModeSwitch { running: true, ..*old(self) }),
    {
        self.running = true;
    }
}

/// Holding `Lock` and a function key asks for that key's task once: while the
/// key stays down, or goes down again, nothing more changes.
pub proof fn lemma_switch_is_idempotent(switch: ModeSwitch, event: KeyEvent, lock_held: bool)
    ensures
        switch.after(event, lock_held).after(event, lock_held) == switch.after(event, lock_held),
{
}

/// The boot screen.
pub struct BootMode {}

impl BootMode {
    pub fn new() -> (mode: BootMode) {
        BootMode {  }
    }
}

/// The numpad: keys go to the host.
pub struct NumpadMode {}

/// What the numpad does with a key event: what it tells the keyboard, and
/// what it shows.
pub struct NumpadAction {
    pub hid: Option<HidEvent>,
    pub text: heapless::String<32>,
}

/// The name of a key.
pub open spec fn key_name(key: Key) -> Seq<char> {
    match key {
        Key::F1 => "F1"@,
        Key::F2 => "F2"@,
        Key::F3 => "F3"@,
        Key::F4 => "F4"@,
        Key::Lock => "Lock"@,
        Key::Div => "Div"@,
        Key::Mul => "Mul"@,
        Key::Sub => "Sub"@,
        Key::Add => "Add"@,
        Key::Enter => "Enter"@,
        Key::Dot => "Dot"@,
        Key::D0 => "D0"@,
        Key::D1 => "D1"@,
        Key::D2 => "D2"@,
        Key::D3 => "D3"@,
        Key::D4 => "D4"@,
        Key::D5 => "D5"@,
        Key::D6 => "D6"@,
        Key::D7 => "D7"@,
        Key::D8 => "D8"@,
        Key::D9 => "D9"@,
        Key::NC => "NC"@,
    }
}

/// Whether the numpad leaves the key to the mode switch.
pub open spec fn is_function_key(key: Key) -> bool {
    key == Key::F1 || key == Key::F2 || key == Key::F3 || key == Key::F4
}

/// What the numpad tells the keyboard when a key goes down or up.
pub open spec fn numpad_hid_event(event: KeyEvent) -> Option<HidEvent> {
    match hid_keycode(event.key) {
        Some(keycode) => if event.pressed {
            Some(HidEvent::SetKey(keycode))
        } else {
            Some(HidEvent::ReleaseKey(keycode))
        },
        None => None,
    }
}

/// What the numpad shows when a key goes down or up.
pub open spec fn numpad_text(event: KeyEvent) -> Seq<char> {
    (if event.pressed {
        "PRESS "@
    } else {
        "RELEASE "@
    }) + " "@ + key_name(event.key)
}

impl NumpadMode {
    pub fn new() -> (mode: NumpadMode) {
        NumpadMode {  }
    }

    /// Takes a key event. The function keys are left to the mode switch:
    /// nothing is done for them. For every other key the keyboard is told
    /// that it went down or up, if the key has a keycode, and the display
    /// shows which key it was.
    pub fn handle(&self, event: KeyEvent) -> (action: Option<NumpadAction>)
        ensures
            action is None <==> is_function_key(event.key),
            action matches Some(a) ==> {
                &&& a.hid == numpad_hid_event(event)
                &&& buffer_text(a.text) == numpad_text(event)
            },
    {
        match event.key {
            Key::F1 | Key::F2 | Key::F3 | Key::F4 => {
                return None;
            },
            _ => {},
        }
        let hid = match event.key.into_hid_keycode() {
            Some(keycode) => if event.pressed {
                Some(HidEvent::SetKey(keycode))
            } else {
                Some(HidEvent::ReleaseKey(keycode))
            },
            None => None,
        };
        let mut text = buffer_new();
        let name = key_name_of(event.key);
        proof {
            reveal_strlit("PRESS ");
            reveal_strlit("RELEASE ");
            reveal_strlit(" ");
            lemma_key_names_are_short(event.key);
        }
        let head = if event.pressed {
            "PRESS "
        } else {
            "RELEASE "
        };
        assert(is_ascii_chars(head@));
        assert(is_ascii_chars(" "@));
        let _ = buffer_push_str(&mut text, head);
        let _ = buffer_push_str(&mut text, " ");
        assert(is_ascii_chars(buffer_text(text)));
        let _ = buffer_push_str(&mut text, name);
        Some(NumpadAction { hid, text })
    }
}

/// The name of a key.
pub fn key_name_of(key: Key) -> (name: &'static str)
    ensures
        name@ == key_name(key),
{
    match key {
        Key::F1 => "F1",
        Key::F2 => "F2",
        Key::F3 => "F3",
        Key::F4 => "F4",
        Key::Lock => "Lock",
        Key::Div => "Div",
        Key::Mul => "Mul",
        Key::Sub => "Sub",
        Key::Add => "Add",
        Key::Enter => "Enter",
        Key::Dot => "Dot",
        Key::D0 => "D0",
        Key::D1 => "D1",
        Key::D2 => "D2",
        Key::D3 => "D3",
        Key::D4 => "D4",
        Key::D5 => "D5",
        Key::D6 => "D6",
        Key::D7 => "D7",
        Key::D8 => "D8",
        Key::D9 => "D9",
        Key::NC => "NC",
    }
}

/// The name of a key is ASCII text of at most five characters.
pub proof fn lemma_key_names_are_short(key: Key)
    ensures
        key_name(key).len() <= 5,
        is_ascii_chars(key_name(key)),
{
    reveal_strlit("F1");
    reveal_strlit("F2");
    reveal_strlit("F3");
    reveal_strlit("F4");
    reveal_strlit("Lock");
    reveal_strlit("Div");
    reveal_strlit("Mul");
    reveal_strlit("Sub");
    reveal_strlit("Add");
    reveal_strlit("Enter");
    reveal_strlit("Dot");
    reveal_strlit("D0");
    reveal_strlit("D1");
    reveal_strlit("D2");
    reveal_strlit("D3");
    reveal_strlit("D4");
    reveal_strlit("D5");
    reveal_strlit("D6");
    reveal_strlit("D7");
    reveal_strlit("D8");
    reveal_strlit("D9");
    reveal_strlit("NC");
}

/// The test pattern: a checkerboard that flips.
pub struct FlashMode {
    inverted: bool,
}

/// Side of a square of the checkerboard, in pixels.
pub const CHECKERBOARD_SIZE: u32 = 8;

/// Time between two flips in milliseconds.
pub const FLASH_INTERVAL_MS: u64 = 500;

/// Width of the checkerboard in pixels.
pub const BOARD_WIDTH: u32 = 128;

/// Height of the checkerboard in pixels.
pub const BOARD_HEIGHT: u32 = 64;

/// Whether the square with the given column and row is filled.
pub open spec fn square_filled(column: int, row: int, inverted: bool) -> bool {
    ((column + row) % 2 == 0) != inverted
}

/// The corners of the filled squares among the first `n` squares, counted
/// row by row.
pub open spec fn filled_squares(inverted: bool, n: int) -> Seq<(u32, u32)>
    decreases n,
{
    if n <= 0 {
        Seq::empty()
    } else {
        let before = filled_squares(inverted, n - 1);
        let column = (n - 1) % 16;
        let row = (n - 1) / 16;
        if square_filled(column, row, inverted) {
            before.push(((column * 8) as u32, (row * 8) as u32))
        } else {
            before
        }
    }
}

impl FlashMode {
    pub closed spec fn inverted(&self) -> bool {
        self.inverted
    }

    pub fn new() -> (mode: FlashMode)
        ensures
            !mode.inverted(),
    {
        FlashMode { inverted: false }
    }

    /// One flash: says which pattern to draw now, and flips for the next.
    pub fn step(&mut self) -> (inverted: bool)
        ensures
            inverted == old(self).inverted(),
            final(self).inverted() == !old(self).inverted(),
    {
        let inverted = self.inverted;
        self.inverted = !self.inverted;
        inverted
    }

    /// The squares to fill, each by its upper left corner, row by row. The
    /// board has 8 rows of 16 squares; a square is filled where the sum of
    /// its column and row is even, or odd where the pattern is inverted.
    pub fn draw_checkerboard(&self, inverted: bool) -> (squares: Vec<(u32, u32)>)
        ensures
            squares@ == filled_squares(inverted, 128),
    {
        let mut squares: Vec<(u32, u32)> = Vec::new();
        let mut y: u32 = 0;
        while y < BOARD_HEIGHT
            invariant
                y <= BOARD_HEIGHT,
                y % 8 == 0,
                squares@ == filled_squares(inverted, (y / 8) * 16),
            decreases BOARD_HEIGHT - y,
        {
            let mut x: u32 = 0;
            while x < BOARD_WIDTH
                invariant
                    x <= BOARD_WIDTH,
                    x % 8 == 0,
                    y < BOARD_HEIGHT,
                    y % 8 == 0,
                    squares@ == filled_squares(inverted, (y / 8) * 16 + x / 8),
                decreases BOARD_WIDTH - x,
            {
                let square_x = x / CHECKERBOARD_SIZE;
                let square_y = y / CHECKERBOARD_SIZE;
                let should_fill = (square_x + square_y) % 2 == 0;
                let fill = if inverted {
                    !should_fill
                } else {
                    should_fill
                };
                let ghost n = (y / 8) * 16 + x / 8 + 1;
                assert((n - 1) % 16 == square_x && (n - 1) / 16 == square_y);
                if fill {
                    squares.push((x, y));
                }
                x += CHECKERBOARD_SIZE;
            }
            y += CHECKERBOARD_SIZE;
        }
        squares
    }
}

/// The task that owns the display.
pub enum CurrentMode {
    BootMode(BootMode),
    NumpadMode(NumpadMode),
    FlashMode(FlashMode),
}

impl CurrentMode {
    /// The task to run next, by the number asked for: 0 is the numpad, 3 the
    /// test pattern. For every other number the current task runs again.
    pub fn next(self, target: u8) -> (mode: CurrentMode)
        ensures
            target == 0 ==> mode is NumpadMode,
            target == 3 ==> mode is FlashMode && !mode->FlashMode_0.inverted(),
            target != 0 && target != 3 ==> mode == self,
    {
        if target == 0 {
            CurrentMode::NumpadMode(NumpadMode::new())
        } else if target == 3 {
            CurrentMode::FlashMode(FlashMode::new())
        } else {
            self
        }
    }
}

} // verus!
