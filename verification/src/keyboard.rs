//! The matrix as it is scanned, and the dispatcher that routes its events.
//!
//! A switch is debounced by a counter of scan cycles. The dispatcher keeps
//! the mode, the calculator and whether the modifier key is held. A press of
//! a key of the mode row while the modifier is held switches the mode, and
//! the calculator starts afresh whenever its mode is entered; the modifier
//! key clears the calculator; every other key goes to the host in numpad
//! mode and to the calculator in calculator mode.

use crate::buffer::{
    line_new, line_text, positions_as_slice, positions_new, positions_of, positions_push,
};
use crate::calculator::{
    commits, display_text, evaluation_of, transition, Calculator, CalculatorError,
    CalculatorView, Input, Operator,
};
use crate::display::{append, truncated};
use crate::keypad::{hid_keycode, keymap, COLS, KEY_COUNT, ROWS};
use crate::modes::{mode_name, mode_of_column, Mode};
use crate::numpad::numpad_line;
use vstd::prelude::*;

verus! {

/// Scan cycles that a switch has to differ from its settled state before the
/// state follows, after the cycle that saw it differ first.
pub const DEBOUNCE_MS: u8 = 10;

/// A switch of the matrix: its settled state, and the cycles left until a
/// change settles.
#[derive(Clone, Copy)]
pub struct Key {
    pub is_pressed: bool,
    pub debounce_timer: u8,
}

/// A switch went down or up, by its position in the matrix.
#[derive(Clone, Copy, Debug, PartialEq, Eq, Structural)]
pub struct SwitchEvent {
    pub row: usize,
    pub col: usize,
    pub pressed: bool,
}

/// One scan cycle of a switch: the switch afterwards, and its new settled
/// state if that changed.
pub open spec fn updated(key: Key, is_low: bool) -> (Key, Option<bool>) {
    if is_low != key.is_pressed {
        if key.debounce_timer == 0 {
            (Key { debounce_timer: DEBOUNCE_MS, ..key }, None)
        } else if key.debounce_timer == 1 {
            (Key { is_pressed: is_low, debounce_timer: 0 }, Some(is_low))
        } else {
            (Key { debounce_timer: (key.debounce_timer - 1) as u8, ..key }, None)
        }
    } else {
        (Key { debounce_timer: 0, ..key }, None)
    }
}

/// A switch after `n` more samples of one level.
pub open spec fn fed(key: Key, is_low: bool, n: nat) -> Key
    decreases n,
{
    if n == 0 {
        key
    } else {
        updated(fed(key, is_low, (n - 1) as nat), is_low).0
    }
}

/// While a level that differs from the settled state is counted down, the
/// settled state stays: after `n` samples, at most as many as the count
/// starts with, the state is as before and `n - 1` counts are gone.
pub proof fn lemma_counting_keeps_state(key: Key, is_low: bool, n: nat)
    requires
        key.debounce_timer == 0,
        is_low != key.is_pressed,
        1 <= n <= DEBOUNCE_MS,
    ensures
        fed(key, is_low, n) == (Key {
            is_pressed: key.is_pressed,
            debounce_timer: (DEBOUNCE_MS + 1 - n) as u8,
        }),
        updated(fed(key, is_low, (n - 1) as nat), is_low).1 is None,
    decreases n,
{
    if n > 1 {
        lemma_counting_keeps_state(key, is_low, (n - 1) as nat);
    }
}

/// A level that differs from the settled state and holds becomes the settled
/// state with the sample after the count has run down, and is reported then.
pub proof fn lemma_held_level_settles(key: Key, is_low: bool)
    requires
        key.debounce_timer == 0,
        is_low != key.is_pressed,
    ensures
        updated(fed(key, is_low, DEBOUNCE_MS as nat), is_low) == (
            Key { is_pressed: is_low, debounce_timer: 0 },
            Some(is_low),
        ),
{
    lemma_counting_keeps_state(key, is_low, DEBOUNCE_MS as nat);
}

/// The keycode that goes to the host for a position: that of its key, and
/// zero for the mode row and for a position without a key.
pub open spec fn keycode_at(row: int, col: int) -> u8 {
    if row == 0 {
        0
    } else {
        match hid_keycode(keymap(row, col)) {
            Some(code) => code,
            None => 0,
        }
    }
}

/// The calculator's symbol at a position, if it has one.
pub open spec fn calc_char(row: int, col: int) -> Option<char> {
    if row == 1 && col == 0 {
        Some('C')
    } else if row == 1 && col == 1 {
        Some('/')
    } else if row == 1 && col == 2 {
        Some('*')
    } else if row == 1 && col == 3 {
        Some('-')
    } else if row == 2 && col == 0 {
        Some('7')
    } else if row == 2 && col == 1 {
        Some('8')
    } else if row == 2 && col == 2 {
        Some('9')
    } else if row == 3 && col == 0 {
        Some('4')
    } else if row == 3 && col == 1 {
        Some('5')
    } else if row == 3 && col == 2 {
        Some('6')
    } else if row == 3 && col == 3 {
        Some('+')
    } else if row == 4 && col == 0 {
        Some('1')
    } else if row == 4 && col == 1 {
        Some('2')
    } else if row == 4 && col == 2 {
        Some('3')
    } else if row == 5 && col == 1 {
        Some('0')
    } else if row == 5 && col == 2 {
        Some('.')
    } else if row == 5 && col == 3 {
        Some('=')
    } else {
        None
    }
}

impl Key {
    /// A switch that is up.
    pub fn new() -> (key: Key)
        ensures
            key == (Key { is_pressed: false, debounce_timer: 0 }),
    {
        Key { is_pressed: false, debounce_timer: 0 }
    }

    /// One scan cycle: `is_low` says whether the switch is closed. Returns
    /// the new settled state where it changed.
    ///
    /// A sample that differs from the settled state starts the counter, and
    /// each further one counts it down; the state follows when it reaches
    /// zero. A sample that agrees with the settled state stops the counter.
    pub fn update(&mut self, is_low: bool) -> (change: Option<bool>)
        ensures
            (*final(self), change) == updated(*old(self), is_low),
    {
        if is_low != self.is_pressed {
            if self.debounce_timer == 0 {
                self.debounce_timer = DEBOUNCE_MS;
                None
            } else {
                self.debounce_timer -= 1;
                if self.debounce_timer == 0 {
                    self.is_pressed = is_low;
                    Some(is_low)
                } else {
                    None
                }
            }
        } else {
            self.debounce_timer = 0;
            None
        }
    }

    /// The keycode that goes to the host for a position.
    pub fn keycode(row: usize, col: usize) -> (code: u8)
        requires
            row < ROWS,
            col < COLS,
        ensures
            code == keycode_at(row as int, col as int),
    {
        if row == 0 {
            0
        } else {
            match crate::keypad::Key::at(row, col).into_hid_keycode() {
                Some(code) => code,
                None => 0,
            }
        }
    }

    /// The calculator's symbol at a position, if it has one.
    pub fn to_calc_char(row: usize, col: usize) -> (symbol: Option<char>)
        ensures
            symbol == calc_char(row as int, col as int),
    {
        match (row, col) {
            (1, 0) => Some('C'),
            (1, 1) => Some('/'),
            (1, 2) => Some('*'),
            (1, 3) => Some('-'),
            (2, 0) => Some('7'),
            (2, 1) => Some('8'),
            (2, 2) => Some('9'),
            (3, 0) => Some('4'),
            (3, 1) => Some('5'),
            (3, 2) => Some('6'),
            (3, 3) => Some('+'),
            (4, 0) => Some('1'),
            (4, 1) => Some('2'),
            (4, 2) => Some('3'),
            (5, 1) => Some('0'),
            (5, 2) => Some('.'),
            (5, 3) => Some('='),
            _ => None,
        }
    }

    /// Whether the position is that of the modifier key.
    pub fn is_numlock(row: usize, col: usize) -> (r: bool)
        ensures
            r == (row == 1 && col == 0),
    {
        row == 1 && col == 0
    }

    /// Whether the row is the mode row.
    pub fn is_mode_key(row: usize) -> (r: bool)
        ensures
            r == (row == 0),
    {
        row == 0
    }
}

/// The presses and the releases of one scan cycle, each row by row.
pub struct KeyEvents {
    pub presses: heapless::Vec<(usize, usize), 24>,
    pub releases: heapless::Vec<(usize, usize), 24>,
}

impl KeyEvents {
    pub fn new() -> (events: KeyEvents)
        ensures
            positions_of(events.presses).len() == 0,
            positions_of(events.releases).len() == 0,
    {
        KeyEvents { presses: positions_new(), releases: positions_new() }
    }
}

/// The position of the `n`th switch, counted row by row.
pub open spec fn position_of_switch(n: int) -> (usize, usize) {
    ((n / 4) as usize, (n % 4) as usize)
}

/// The positions among the first `n` whose settled state changes to
/// `pressed` in a scan cycle, row by row.
pub open spec fn changes(keys: Seq<Key>, samples: Seq<bool>, n: int, pressed: bool) -> Seq<
    (usize, usize),
>
    decreases n,
{
    if n <= 0 {
        Seq::empty()
    } else {
        let before = changes(keys, samples, n - 1, pressed);
        if updated(keys[n - 1], samples[n - 1]).1 == Some(pressed) {
            before.push(position_of_switch(n - 1))
        } else {
            before
        }
    }
}

/// The positions among the first `n` whose settled state is down.
pub open spec fn held(keys: Seq<Key>, n: int) -> Seq<(usize, usize)>
    decreases n,
{
    if n <= 0 {
        Seq::empty()
    } else {
        let before = held(keys, n - 1);
        if keys[n - 1].is_pressed {
            before.push(position_of_switch(n - 1))
        } else {
            before
        }
    }
}

/// At most `n` positions change among the first `n`.
pub proof fn lemma_changes_bounded(keys: Seq<Key>, samples: Seq<bool>, n: int, pressed: bool)
    requires
        0 <= n,
    ensures
        changes(keys, samples, n, pressed).len() <= n,
    decreases n,
{
    if n > 0 {
        lemma_changes_bounded(keys, samples, n - 1, pressed);
    }
}

/// At most `n` positions are held among the first `n`.
pub proof fn lemma_held_bounded(keys: Seq<Key>, n: int)
    requires
        0 <= n,
    ensures
        held(keys, n).len() <= n,
    decreases n,
{
    if n > 0 {
        lemma_held_bounded(keys, n - 1);
    }
}

/// The matrix: one switch for each position, row by row.
pub struct KeyMatrix {
    keys: [Key; 24],
}

impl View for KeyMatrix {
    type V = Seq<Key>;

    closed spec fn view(&self) -> Seq<Key> {
        self.keys@
    }
}

impl KeyMatrix {
    /// A matrix with every switch up.
    pub fn new() -> (matrix: KeyMatrix)
        ensures
            matrix@.len() == KEY_COUNT,
            forall|n: int| 0 <= n < KEY_COUNT ==> #[trigger] matrix@[n] == (Key {
                is_pressed: false,
                debounce_timer: 0,
            }),
    {
        let keys = [Key::new(); 24];
        KeyMatrix { keys }
    }

    /// One scan cycle. `samples[row][col]` says whether the switch at that
    /// position is closed. Every switch takes its sample; the positions
    /// whose settled state changed come out as presses and releases.
    pub fn scan(&mut self, samples: &[[bool; 4]; 6]) -> (events: KeyEvents)
        ensures
            final(self)@.len() == KEY_COUNT,
            forall|n: int|
                0 <= n < KEY_COUNT ==> #[trigger] final(self)@[n] == updated(
                    old(self)@[n],
                    crate::keypad::flat(*samples)[n],
                ).0,
            positions_of(events.presses) == changes(
                old(self)@,
                crate::keypad::flat(*samples),
                KEY_COUNT as int,
                true,
            ),
            positions_of(events.releases) == changes(
                old(self)@,
                crate::keypad::flat(*samples),
                KEY_COUNT as int,
                false,
            ),
    {
        let mut events = KeyEvents::new();
        let ghost flat = crate::keypad::flat(*samples);
        let mut n: usize = 0;
        assert(positions_of(events.presses) =~= changes(old(self)@, flat, 0, true));
        assert(positions_of(events.releases) =~= changes(old(self)@, flat, 0, false));
        while n < KEY_COUNT
            invariant
                n <= KEY_COUNT,
                flat == crate::keypad::flat(*samples),
                forall|m: int|
                    0 <= m < n ==> #[trigger] self.keys@[m] == updated(
                        old(self).keys@[m],
                        flat[m],
                    ).0,
                forall|m: int| n <= m < KEY_COUNT ==> #[trigger] self.keys@[m] == old(
                    self,
                ).keys@[m],
                positions_of(events.presses) == changes(old(self).keys@, flat, n as int, true),
                positions_of(events.releases) == changes(old(self).keys@, flat, n as int, false),
            decreases KEY_COUNT - n,
        {
            let row = n / COLS;
            let col = n % COLS;
            let is_low = samples[row][col];
            assert(is_low == flat[n as int]);
            let mut key = self.keys[n];
            let change = key.update(is_low);
            self.keys[n] = key;
            proof {
                lemma_changes_bounded(old(self).keys@, flat, n as int, true);
                lemma_changes_bounded(old(self).keys@, flat, n as int, false);
            }
            match change {
                Some(true) => {
                    let _ = positions_push(&mut events.presses, (row, col));
                },
                Some(false) => {
                    let _ = positions_push(&mut events.releases, (row, col));
                },
                None => {},
            }
            n += 1;
        }
        events
    }

    /// The positions whose settled state is down, row by row.
    pub fn get_pressed_keys(&self) -> (pressed: heapless::Vec<(usize, usize), 24>)
        ensures
            positions_of(pressed) == held(self@, KEY_COUNT as int),
    {
        let mut pressed = positions_new();
        let mut n: usize = 0;
        assert(positions_of(pressed) =~= held(self@, 0));
        while n < KEY_COUNT
            invariant
                n <= KEY_COUNT,
                positions_of(pressed) == held(self.keys@, n as int),
            decreases KEY_COUNT - n,
        {
            proof {
                lemma_held_bounded(self.keys@, n as int);
            }
            if self.keys[n].is_pressed {
                let _ = positions_push(&mut pressed, (n / COLS, n % COLS));
            }
            n += 1;
        }
        pressed
    }

    /// Whether all four keys of the mode row are down.
    pub fn all_top_row_pressed(&self) -> (all: bool)
        ensures
            all == (forall|col: int| 0 <= col < 4 ==> (#[trigger] self@[col]).is_pressed),
    {
        let all = self.keys[0].is_pressed && self.keys[1].is_pressed && self.keys[2].is_pressed
            && self.keys[3].is_pressed;
        assert(all == (self@[0].is_pressed && self@[1].is_pressed && self@[2].is_pressed
            && self@[3].is_pressed));
        all
    }
}

/// The keystroke that a symbol of the calculator stands for.
pub open spec fn input_of_char(symbol: char) -> Option<Input> {
    if symbol == 'C' {
        Some(Input::Clear)
    } else if symbol == '.' {
        Some(Input::Decimal)
    } else if symbol == '=' {
        Some(Input::Equals)
    } else if symbol == '+' {
        Some(Input::Operator(Operator::Add))
    } else if symbol == '-' {
        Some(Input::Operator(Operator::Subtract))
    } else if symbol == '*' {
        Some(Input::Operator(Operator::Multiply))
    } else if symbol == '/' {
        Some(Input::Operator(Operator::Divide))
    } else if '0' <= symbol <= '9' {
        Some(Input::Digit((symbol as u8 - 0x30) as u8))
    } else {
        None
    }
}

/// The dispatcher as plain data.
pub struct KeyboardView {
    pub current_mode: Mode,
    pub calculator: CalculatorView,
    pub numlock_held: bool,
    /// The failure that the calculator's line shows, if any.
    pub error: Option<CalculatorError>,
}

impl KeyboardView {
    /// The dispatcher after the calculator took a symbol. A keystroke that
    /// fails sets the failure shown; one that is neither clear nor turns the
    /// entry into a number takes it away.
    pub open spec fn typed(self, symbol: char) -> KeyboardView {
        match input_of_char(symbol) {
            None => self,
            Some(input) => {
                let (next, result) = transition(
                    self.calculator,
                    input,
                    evaluation_of(self.calculator, input),
                );
                let error = match result {
                    Err(e) => Some(e),
                    Ok(_) => if input is Clear || commits(self.calculator.state, input) {
                        self.error
                    } else {
                        None
                    },
                };
                KeyboardView { calculator: next, error, ..self }
            },
        }
    }

    /// The dispatcher after a switch to the mode of a column of the mode row.
    /// A column without a mode, or with the mode that is current, changes
    /// nothing. The calculator starts afresh whenever its mode is entered.
    pub open spec fn switched(self, col: int) -> KeyboardView {
        match mode_of_column(col) {
            Some(mode) => if mode == self.current_mode {
                self
            } else if mode == Mode::Calculator {
                KeyboardView {
                    current_mode: mode,
                    calculator: CalculatorView::initial(),
                    error: None,
                    ..self
                }
            } else {
                KeyboardView { current_mode: mode, ..self }
            },
            None => self,
        }
    }

    /// The dispatcher after a press, and what goes to the host.
    pub open spec fn pressed(self, row: usize, col: usize) -> (KeyboardView, Option<SwitchEvent>) {
        if row == 0 && self.numlock_held {
            (self.switched(col as int), None)
        } else if row == 1 && col == 0 {
            let held = KeyboardView { numlock_held: true, ..self };
            if self.current_mode == Mode::Calculator {
                (held.typed('C'), None)
            } else {
                (held, None)
            }
        } else {
            match self.current_mode {
                Mode::Numpad => (self, Some(SwitchEvent { row, col, pressed: true })),
                Mode::Calculator => match calc_char(row as int, col as int) {
                    Some(symbol) => (self.typed(symbol), None),
                    None => (self, None),
                },
                _ => (self, None),
            }
        }
    }

    /// The dispatcher after a release, and what goes to the host.
    pub open spec fn released(self, row: usize, col: usize) -> (
        KeyboardView,
        Option<SwitchEvent>,
    ) {
        if row == 1 && col == 0 {
            (KeyboardView { numlock_held: false, ..self }, None)
        } else if self.current_mode == Mode::Numpad {
            (self, Some(SwitchEvent { row, col, pressed: false }))
        } else {
            (self, None)
        }
    }

    /// The line of the display, before it is cut to fit.
    pub open spec fn line(self, pressed_keys: Seq<(usize, usize)>) -> Seq<char> {
        match self.current_mode {
            Mode::Numpad => numpad_line(pressed_keys),
            Mode::Calculator => "[CALC] "@ + if self.error is Some {
                "Error"@
            } else {
                display_text(self.calculator)
            },
            Mode::Reserved2 | Mode::Reserved3 => mode_name(self.current_mode) + " Reserved"@,
        }
    }
}

/// The dispatcher: the mode, the calculator, and whether the modifier key is
/// held.
pub struct KeyboardState {
    current_mode: Mode,
    calculator: Calculator,
    numlock_held: bool,
    error: Option<CalculatorError>,
}

impl View for KeyboardState {
    type V = KeyboardView;

    closed spec fn view(&self) -> KeyboardView {
        KeyboardView {
            current_mode: self.current_mode,
            calculator: self.calculator@,
            numlock_held: self.numlock_held,
            error: self.error,
        }
    }
}

/// The keystroke that a symbol of the calculator stands for.
pub fn input_for_char(symbol: char) -> (input: Option<Input>)
    ensures
        input == input_of_char(symbol),
{
    if symbol == 'C' {
        Some(Input::Clear)
    } else if symbol == '.' {
        Some(Input::Decimal)
    } else if symbol == '=' {
        Some(Input::Equals)
    } else if symbol == '+' {
        Some(Input::Operator(Operator::Add))
    } else if symbol == '-' {
        Some(Input::Operator(Operator::Subtract))
    } else if symbol == '*' {
        Some(Input::Operator(Operator::Multiply))
    } else if symbol == '/' {
        Some(Input::Operator(Operator::Divide))
    } else if '0' <= symbol && symbol <= '9' {
        Some(Input::Digit(symbol as u8 - 0x30))
    } else {
        None
    }
}

impl KeyboardState {
    /// The calculator inside is well formed.
    pub open spec fn wf(&self) -> bool {
        self@.calculator.wf()
    }

    /// A dispatcher in numpad mode, with a fresh calculator.
    pub fn new() -> (state: KeyboardState)
        ensures
            state.wf(),
            state@ == (KeyboardView {
                current_mode: Mode::Numpad,
                calculator: CalculatorView::initial(),
                numlock_held: false,
                error: None,
            }),
    {
        KeyboardState {
            current_mode: Mode::Numpad,
            calculator: Calculator::new(),
            numlock_held: false,
            error: None,
        }
    }

    /// The mode that events are routed by.
    pub fn mode(&self) -> (mode: Mode)
        ensures
            mode == self@.current_mode,
    {
        self.current_mode
    }

    /// The calculator takes a symbol.
    pub fn handle_key(&mut self, symbol: char)
        requires
            old(self).wf(),
        ensures
            final(self).wf(),
            final(self)@ == old(self)@.typed(symbol),
    {
        if let Some(input) = input_for_char(symbol) {
            let evaluates = match input {
                Input::Operator(_) | Input::Equals => self.calculator.is_entering(),
                _ => false,
            };
            match self.calculator.input(input) {
                Err(e) => {
                    self.error = Some(e);
                },
                Ok(_) => {
                    let keeps = match input {
                        Input::Clear => true,
                        _ => evaluates,
                    };
                    if !keeps {
                        self.error = None;
                    }
                },
            }
        }
    }

    /// A switch went down. Returns what goes to the host.
    ///
    /// A key of the mode row, while the modifier is held, switches the mode.
    /// The modifier key is held from now on and, in calculator mode, clears.
    /// Every other key goes to the host in numpad mode and to the calculator
    /// in calculator mode.
    pub fn handle_press(&mut self, row: usize, col: usize) -> (sent: Option<SwitchEvent>)
        requires
            old(self).wf(),
        ensures
            final(self).wf(),
            (final(self)@, sent) == old(self)@.pressed(row, col),
    {
        if Key::is_mode_key(row) && self.numlock_held {
            self.switch_mode(col);
            return None;
        }
        if Key::is_numlock(row, col) {
            self.numlock_held = true;
            if self.current_mode == Mode::Calculator {
                if let Some(symbol) = Key::to_calc_char(row, col) {
                    self.handle_key(symbol);
                }
            }
            return None;
        }
        match self.current_mode {
            Mode::Numpad => Some(SwitchEvent { row, col, pressed: true }),
            Mode::Calculator => {
                if let Some(symbol) = Key::to_calc_char(row, col) {
                    self.handle_key(symbol);
                }
                None
            },
            _ => None,
        }
    }

    /// A switch went up. Returns what goes to the host.
    ///
    /// The modifier key is held no more. Every other key goes to the host in
    /// numpad mode.
    pub fn handle_release(&mut self, row: usize, col: usize) -> (sent: Option<SwitchEvent>)
        requires
            old(self).wf(),
        ensures
            final(self).wf(),
            (final(self)@, sent) == old(self)@.released(row, col),
    {
        if Key::is_numlock(row, col) {
            self.numlock_held = false;
            return None;
        }
        if self.current_mode == Mode::Numpad {
            Some(SwitchEvent { row, col, pressed: false })
        } else {
            None
        }
    }

    /// Switches to the mode of a column of the mode row. A column without a
    /// mode, or with the mode that is current, changes nothing. The
    /// calculator starts afresh whenever its mode is entered.
    pub fn switch_mode(&mut self, col: usize)
        requires
            old(self).wf(),
        ensures
            final(self).wf(),
            final(self)@ == old(self)@.switched(col as int),
    {
        let new_mode = match Mode::from_column(col) {
            Some(mode) => mode,
            None => {
                return;
            },
        };
        if new_mode != self.current_mode {
            if new_mode == Mode::Calculator {
                self.calculator = Calculator::new();
                self.error = None;
            }
            self.current_mode = new_mode;
        }
    }

    /// The line of the display for the current mode, cut off at 64
    /// characters.
    pub fn format_display(&self, pressed_keys: &heapless::Vec<(usize, usize), 24>) -> (text:
        heapless::String<64>)
        requires
            self.wf(),
        ensures
            line_text(text) == truncated(self@.line(positions_of(*pressed_keys))),
    {
        match self.current_mode {
            Mode::Numpad => crate::numpad::format_display(positions_as_slice(pressed_keys)),
            Mode::Calculator => {
                let mut text = line_new();
                proof {
                    reveal_strlit("[CALC] ");
                    reveal_strlit("Error");
                }
                append(&mut text, "[CALC] ");
                assert(line_text(text) =~= "[CALC] "@);
                if self.error.is_some() {
                    append(&mut text, "Error");
                } else {
                    let shown = self.calculator.display();
                    append(&mut text, shown.as_str());
                }
                text
            },
            Mode::Reserved2 | Mode::Reserved3 => {
                let mut text = line_new();
                let name = self.current_mode.name();
                proof {
                    reveal_strlit("[M2]");
                    reveal_strlit("[M3]");
                    reveal_strlit(" Reserved");
                }
                append(&mut text, name);
                assert(line_text(text) =~= name@);
                append(&mut text, " Reserved");
                text
            },
        }
    }
}

/// A press of a mode key with the modifier held selects the mode of its
/// column, and pressing it again, or holding it, changes nothing more.
pub proof fn lemma_mode_chord_switches_once(keyboard: KeyboardView, col: usize)
    requires
        keyboard.numlock_held,
        mode_of_column(col as int) is Some,
    ensures
        keyboard.pressed(0, col).1 is None,
        keyboard.pressed(0, col).0.current_mode == mode_of_column(col as int)->Some_0,
        keyboard.pressed(0, col).0.numlock_held,
        keyboard.pressed(0, col).0.pressed(0, col).0 == keyboard.pressed(0, col).0,
{
}

/// A switch to the mode that is current changes nothing: the calculator
/// keeps what was typed.
pub proof fn lemma_switch_to_current_mode_is_a_no_op(keyboard: KeyboardView, col: usize)
    requires
        mode_of_column(col as int) == Some(keyboard.current_mode),
    ensures
        keyboard.switched(col as int) == keyboard,
{
}

/// The calculator starts afresh whenever its mode is entered from another.
pub proof fn lemma_calculator_mode_starts_afresh(keyboard: KeyboardView)
    requires
        keyboard.current_mode != Mode::Calculator,
    ensures
        keyboard.switched(1).current_mode == Mode::Calculator,
        keyboard.switched(1).calculator == CalculatorView::initial(),
        keyboard.switched(1).error is None,
{
}

/// A press of a mode key without the modifier switches no mode.
pub proof fn lemma_mode_key_alone_keeps_mode(keyboard: KeyboardView, row: usize, col: usize)
    requires
        !keyboard.numlock_held,
        !(row == 1 && col == 0),
    ensures
        keyboard.pressed(row, col).0.current_mode == keyboard.current_mode,
        keyboard.released(row, col).0.current_mode == keyboard.current_mode,
{
}

} // verus!
