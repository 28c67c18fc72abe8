//! The keys, the matrix they sit in, and the scanner that turns raw samples
//! of the matrix into key events.
//!
//! The matrix has 6 rows of 4 switches. A scan cycle hands the scanner one
//! raw sample for each switch; each switch is debounced on its own, and the
//! switches whose settled state changed come out as events, row by row.

use crate::buffer::{events_new, events_push, events_of};
use crate::debounce::{clock_ticks, measure_spec, Debounce};
use vstd::prelude::*;

verus! {

/// A key of the pad. `NC` stands for a position of the matrix that holds no
/// switch.
#[derive(Clone, Copy, Debug, Eq, PartialEq, Structural)]
pub enum Key {
    F1,
    F2,
    F3,
    F4,
    Lock,
    Div,
    Mul,
    Sub,
    Add,
    Enter,
    Dot,
    D0,
    D1,
    D2,
    D3,
    D4,
    D5,
    D6,
    D7,
    D8,
    D9,
    NC,
}

/// A key went down or up.
#[derive(Clone, Copy, Debug, Eq, PartialEq, Structural)]
pub struct KeyEvent {
    pub key: Key,
    pub pressed: bool,
}

pub const ROWS: usize = 6;

pub const COLS: usize = 4;

pub const KEY_COUNT: usize = 24;

/// The debounce window in milliseconds.
pub const DEBOUNCE_DELAY_MS: u64 = 10;

/// The pause between two scan cycles in milliseconds.
pub const LOOP_DELAY_MS: u64 = 2;

/// The USB HID usage code of a key on the keypad page; none for `NC`.
pub open spec fn hid_keycode(key: Key) -> Option<u8> {
    match key {
        Key::F1 => Some(0x3Au8),
        Key::F2 => Some(0x3Bu8),
        Key::F3 => Some(0x3Cu8),
        Key::F4 => Some(0x3Du8),
        Key::Lock => Some(0x53u8),
        Key::Div => Some(0x54u8),
        Key::Mul => Some(0x55u8),
        Key::Sub => Some(0x56u8),
        Key::Add => Some(0x57u8),
        Key::Enter => Some(0x58u8),
        Key::Dot => Some(0x63u8),
        Key::D0 => Some(0x62u8),
        Key::D1 => Some(0x59u8),
        Key::D2 => Some(0x5Au8),
        Key::D3 => Some(0x5Bu8),
        Key::D4 => Some(0x5Cu8),
        Key::D5 => Some(0x5Du8),
        Key::D6 => Some(0x5Eu8),
        Key::D7 => Some(0x5Fu8),
        Key::D8 => Some(0x60u8),
        Key::D9 => Some(0x61u8),
        Key::NC => None,
    }
}

/// The place of a key in the list of keys, from `F1` at 0 to `NC` at 21.
pub open spec fn key_index(key: Key) -> nat {
    match key {
        Key::F1 => 0,
        Key::F2 => 1,
        Key::F3 => 2,
        Key::F4 => 3,
        Key::Lock => 4,
        Key::Div => 5,
        Key::Mul => 6,
        Key::Sub => 7,
        Key::Add => 8,
        Key::Enter => 9,
        Key::Dot => 10,
        Key::D0 => 11,
        Key::D1 => 12,
        Key::D2 => 13,
        Key::D3 => 14,
        Key::D4 => 15,
        Key::D5 => 16,
        Key::D6 => 17,
        Key::D7 => 18,
        Key::D8 => 19,
        Key::D9 => 20,
        Key::NC => 21,
    }
}

/// The key at a position of the matrix.
pub open spec fn keymap(row: int, col: int) -> Key {
    if row == 0 {
        if col == 0 {
            Key::F1
        } else if col == 1 {
            Key::F2
        } else if col == 2 {
            Key::F3
        } else {
            Key::F4
        }
    } else if row == 1 {
        if col == 0 {
            Key::Lock
        } else if col == 1 {
            Key::Div
        } else if col == 2 {
            Key::Mul
        } else {
            Key::Sub
        }
    } else if row == 2 {
        if col == 0 {
            Key::D7
        } else if col == 1 {
            Key::D8
        } else if col == 2 {
            Key::D9
        } else {
            Key::NC
        }
    } else if row == 3 {
        if col == 0 {
            Key::D4
        } else if col == 1 {
            Key::D5
        } else if col == 2 {
            Key::D6
        } else {
            Key::Add
        }
    } else if row == 4 {
        if col == 0 {
            Key::D1
        } else if col == 1 {
            Key::D2
        } else if col == 2 {
            Key::D3
        } else {
            Key::NC
        }
    } else {
        if col == 0 {
            Key::NC
        } else if col == 1 {
            Key::D0
        } else if col == 2 {
            Key::Dot
        } else {
            Key::Enter
        }
    }
}

/// The key of the `n`th switch, counted row by row.
pub open spec fn key_of_switch(n: int) -> Key {
    keymap(n / (COLS as int), n % (COLS as int))
}

impl Key {
    /// The USB HID usage code of the key; none for `NC`.
    pub fn into_hid_keycode(self) -> (code: Option<u8>)
        ensures
            code == hid_keycode(self),
    {
        match self {
            Key::F1 => Some(0x3A),
            Key::F2 => Some(0x3B),
            Key::F3 => Some(0x3C),
            Key::F4 => Some(0x3D),
            Key::Lock => Some(0x53),
            Key::Div => Some(0x54),
            Key::Mul => Some(0x55),
            Key::Sub => Some(0x56),
            Key::Add => Some(0x57),
            Key::Enter => Some(0x58),
            Key::Dot => Some(0x63),
            Key::D0 => Some(0x62),
            Key::D1 => Some(0x59),
            Key::D2 => Some(0x5A),
            Key::D3 => Some(0x5B),
            Key::D4 => Some(0x5C),
            Key::D5 => Some(0x5D),
            Key::D6 => Some(0x5E),
            Key::D7 => Some(0x5F),
            Key::D8 => Some(0x60),
            Key::D9 => Some(0x61),
            Key::NC => None,
        }
    }

    /// The place of the key in the list of keys.
    pub fn index(self) -> (index: usize)
        ensures
            index == key_index(self),
            index < 22,
    {
        match self {
            Key::F1 => 0,
            Key::F2 => 1,
            Key::F3 => 2,
            Key::F4 => 3,
            Key::Lock => 4,
            Key::Div => 5,
            Key::Mul => 6,
            Key::Sub => 7,
            Key::Add => 8,
            Key::Enter => 9,
            Key::Dot => 10,
            Key::D0 => 11,
            Key::D1 => 12,
            Key::D2 => 13,
            Key::D3 => 14,
            Key::D4 => 15,
            Key::D5 => 16,
            Key::D6 => 17,
            Key::D7 => 18,
            Key::D8 => 19,
            Key::D9 => 20,
            Key::NC => 21,
        }
    }

    /// The key at a position of the matrix.
    pub fn at(row: usize, col: usize) -> (key: Key)
        requires
            row < ROWS,
            col < COLS,
        ensures
            key == keymap(row as int, col as int),
    {
        if row == 0 {
            if col == 0 {
                Key::F1
            } else if col == 1 {
                Key::F2
            } else if col == 2 {
                Key::F3
            } else {
                Key::F4
            }
        } else if row == 1 {
            if col == 0 {
                Key::Lock
            } else if col == 1 {
                Key::Div
            } else if col == 2 {
                Key::Mul
            } else {
                Key::Sub
            }
        } else if row == 2 {
            if col == 0 {
                Key::D7
            } else if col == 1 {
                Key::D8
            } else if col == 2 {
                Key::D9
            } else {
                Key::NC
            }
        } else if row == 3 {
            if col == 0 {
                Key::D4
            } else if col == 1 {
                Key::D5
            } else if col == 2 {
                Key::D6
            } else {
                Key::Add
            }
        } else if row == 4 {
            if col == 0 {
                Key::D1
            } else if col == 1 {
                Key::D2
            } else if col == 2 {
                Key::D3
            } else {
                Key::NC
            }
        } else {
            if col == 0 {
                Key::NC
            } else if col == 1 {
                Key::D0
            } else if col == 2 {
                Key::Dot
            } else {
                Key::Enter
            }
        }
    }
}

/// Whether `n` is the first switch, row by row, that holds the key with index
/// `index`.
pub open spec fn first_switch_of(index: int, n: int) -> bool {
    &&& 0 <= n < KEY_COUNT
    &&& key_index(key_of_switch(n)) == index
    &&& forall|m: int| 0 <= m < n ==> key_index(#[trigger] key_of_switch(m)) != index
}

/// The entry of the inverse keymap for the key with index `index`: the
/// position of the first switch that holds the key, if any does.
pub open spec fn inverse_entry(index: int, entry: Option<(usize, usize)>) -> bool {
    match entry {
        Some((row, col)) => row < ROWS && col < COLS && first_switch_of(index, row * COLS + col),
        None => forall|n: int|
            0 <= n < KEY_COUNT ==> key_index(#[trigger] key_of_switch(n)) != index,
    }
}

/// The inverse of the keymap: for each key, by its index, the position of the
/// first switch that holds it. Keys that sit at several positions, as `NC`
/// does, have the first of them.
pub fn build_inverse_keymap() -> (inverse: [Option<(usize, usize)>; 24])
    ensures
        forall|index: int| 0 <= index < KEY_COUNT ==> inverse_entry(index, #[trigger] inverse@[index]),
{
    let mut inverse: [Option<(usize, usize)>; 24] = [None; 24];
    let mut n: usize = 0;
    while n < KEY_COUNT
        invariant
            n <= KEY_COUNT,
            forall|index: int|
                0 <= index < KEY_COUNT ==> match #[trigger] inverse@[index] {
                    Some((row, col)) => row < ROWS && col < COLS && row * COLS + col < n
                        && first_switch_of(index, row * COLS + col),
                    None => forall|m: int|
                        0 <= m < n ==> key_index(#[trigger] key_of_switch(m)) != index,
                },
        decreases KEY_COUNT - n,
    {
        let row = n / COLS;
        let col = n % COLS;
        let index = Key::at(row, col).index();
        if inverse[index].is_none() {
            inverse[index] = Some((row, col));
        }
        n += 1;
    }
    inverse
}

/// The scanner: one debounced switch for each position of the matrix, row by
/// row.
pub struct Keypad {
    switches: [Debounce<bool>; 24],
    inverse: [Option<(usize, usize)>; 24],
}

/// The switches among the first `n` whose settled state changes in a scan
/// cycle, in rising order.
pub open spec fn changed_switches(
    switches: Seq<Debounce<bool>>,
    samples: Seq<bool>,
    now: u64,
    n: int,
) -> Seq<int>
    decreases n,
{
    if n <= 0 {
        Seq::empty()
    } else {
        let before = changed_switches(switches, samples, now, n - 1);
        if measure_spec(switches[n - 1], samples[n - 1], now).1 {
            before.push(n - 1)
        } else {
            before
        }
    }
}

/// The event of a switch whose settled state changed to `pressed`.
pub open spec fn event_of(n: int, pressed: bool) -> KeyEvent {
    KeyEvent { key: key_of_switch(n), pressed }
}

/// The events of a scan cycle over the first `n` switches.
pub open spec fn scan_events(
    switches: Seq<Debounce<bool>>,
    samples: Seq<bool>,
    now: u64,
    n: int,
) -> Seq<KeyEvent> {
    changed_switches(switches, samples, now, n).map_values(|p: int| event_of(p, samples[p]))
}

/// The samples of a matrix, row by row.
pub open spec fn flat(samples: [[bool; 4]; 6]) -> Seq<bool> {
    Seq::new(KEY_COUNT as nat, |n: int| samples[n / 4][n % 4])
}

impl Keypad {
    /// The switches, row by row.
    pub closed spec fn switches(&self) -> Seq<Debounce<bool>> {
        self.switches@
    }

    /// The inverse keymap that the pad holds is that of the keymap.
    pub closed spec fn wf(&self) -> bool {
        forall|index: int|
            0 <= index < KEY_COUNT ==> inverse_entry(index, #[trigger] self.inverse@[index])
    }

    /// A pad with every switch settled on released, at the time `now`.
    /// `delay` is the debounce window in ticks.
    pub fn new_at(delay: u64, now: u64) -> (pad: Keypad)
        ensures
            pad.wf(),
            pad.switches().len() == KEY_COUNT,
            forall|n: int|
                0 <= n < KEY_COUNT ==> #[trigger] pad.switches()[n] == (Debounce::<bool> {
                    value: false,
                    delay,
                    measured_value: false,
                    measured_at: now,
                }),
    {
        let switches = [Debounce::new_at(false, delay, now); 24];
        Keypad { switches, inverse: build_inverse_keymap() }
    }

    /// A pad with every switch settled on released, at the current time.
    pub fn new(delay: u64) -> (pad: Keypad)
        ensures
            pad.wf(),
            pad.switches().len() == KEY_COUNT,
            forall|n: int|
                0 <= n < KEY_COUNT ==> {
                    &&& !(#[trigger] pad.switches()[n]).value
                    &&& !pad.switches()[n].measured_value
                    &&& pad.switches()[n].delay == delay
                },
    {
        Keypad::new_at(delay, clock_ticks())
    }

    /// One scan cycle at the time `now`. `samples[row][col]` says whether the
    /// switch at that position is closed.
    ///
    /// Every switch takes its sample; the switches whose settled state
    /// changed come out as events, row by row, each once.
    pub fn scan_at(&mut self, samples: &[[bool; 4]; 6], now: u64) -> (events: heapless::Vec<
        KeyEvent,
        24,
    >)
        requires
            old(self).wf(),
        ensures
            final(self).wf(),
            final(self).switches().len() == KEY_COUNT,
            forall|n: int|
                0 <= n < KEY_COUNT ==> #[trigger] final(self).switches()[n] == measure_spec(
                    old(self).switches()[n],
                    flat(*samples)[n],
                    now,
                ).0,
            events_of(events) == scan_events(
                old(self).switches(),
                flat(*samples),
                now,
                KEY_COUNT as int,
            ),
    {
        let mut events = events_new();
        let mut n: usize = 0;
        proof {
            lemma_changed_switches_bounded(
                old(self).switches(),
                flat(*samples),
                now,
                KEY_COUNT as int,
            );
        }
        while n < KEY_COUNT
            invariant
                n <= KEY_COUNT,
                self.inverse == old(self).inverse,
                forall|m: int|
                    0 <= m < n ==> #[trigger] self.switches@[m] == measure_spec(
                        old(self).switches@[m],
                        flat(*samples)[m],
                        now,
                    ).0,
                forall|m: int| n <= m < KEY_COUNT ==> #[trigger] self.switches@[m] == old(
                    self,
                ).switches@[m],
                events_of(events) == scan_events(
                    old(self).switches@,
                    flat(*samples),
                    now,
                    n as int,
                ),
            decreases KEY_COUNT - n,
        {
            let row = n / COLS;
            let col = n % COLS;
            let pressed = samples[row][col];
            assert(pressed == flat(*samples)[n as int]);
            let mut switch = self.switches[n];
            let changed = switch.measure_at(pressed, now);
            self.switches[n] = switch;
            proof {
                lemma_changed_switches_bounded(
                    old(self).switches@,
                    flat(*samples),
                    now,
                    n as int,
                );
                let before = changed_switches(old(self).switches@, flat(*samples), now, n as int);
                let f = |p: int| event_of(p, flat(*samples)[p]);
                assert(before.push(n as int).map_values(f) =~= before.map_values(f).push(
                    f(n as int),
                ));
            }
            if changed {
                let event = KeyEvent { key: Key::at(row, col), pressed };
                let _ = events_push(&mut events, event);
            }
            n += 1;
        }
        events
    }

    /// One scan cycle at the current time: [`Keypad::scan_at`] for the tick
    /// count that the clock gave.
    pub fn scan(&mut self, samples: &[[bool; 4]; 6]) -> (events: heapless::Vec<KeyEvent, 24>)
        requires
            old(self).wf(),
        ensures
            final(self).wf(),
            final(self).switches().len() == KEY_COUNT,
            exists|now: u64|
                {
                    &&& #[trigger] scan_events(
                        old(self).switches(),
                        flat(*samples),
                        now,
                        KEY_COUNT as int,
                    ) == events_of(events)
                    &&& forall|n: int|
                        0 <= n < KEY_COUNT ==> #[trigger] final(self).switches()[n] == measure_spec(
                            old(self).switches()[n],
                            flat(*samples)[n],
                            now,
                        ).0
                },
    {
        let now = clock_ticks();
        self.scan_at(samples, now)
    }

    /// Whether a key counts as held: it is one of the first six keys, and the
    /// first switch that holds it is settled on down.
    pub open spec fn key_held(&self, key: Key) -> bool {
        key_index(key) < ROWS && exists|n: int|
            first_switch_of(key_index(key) as int, n) && self.switches()[n].value
    }

    /// Whether a key is held down, by its settled state.
    ///
    /// Only the keys with an index below 6, `F1` to `F4`, `Lock` and `Div`,
    /// are looked up; of every other key the answer is `false`.
    pub fn key_pressed(&self, key: Key) -> (pressed: bool)
        requires
            self.wf(),
        ensures
            pressed == self.key_held(key),
    {
        let index = key.index();
        if index >= ROWS {
            false
        } else {
            match self.inverse[index] {
                Some((row, col)) => {
                    let n = row * COLS + col;
                    assert(first_switch_of(index as int, n as int));
                    assert forall|m: int| first_switch_of(index as int, m) implies m == n by {
                        if m < n {
                            assert(key_index(key_of_switch(m)) != index);
                        } else if n < m {
                            assert(key_index(key_of_switch(n as int)) != index);
                        }
                    }
                    self.switches[n].value
                },
                None => false,
            }
        }
    }
}

/// The switches that change in a scan cycle over the first `n` are among the
/// first `n`, and at most `n`.
pub proof fn lemma_changed_switches_bounded(
    switches: Seq<Debounce<bool>>,
    samples: Seq<bool>,
    now: u64,
    n: int,
)
    requires
        0 <= n,
    ensures
        changed_switches(switches, samples, now, n).len() <= n,
        forall|i: int|
            0 <= i < changed_switches(switches, samples, now, n).len() ==> 0
                <= #[trigger] changed_switches(switches, samples, now, n)[i] < n,
    decreases n,
{
    if n > 0 {
        lemma_changed_switches_bounded(switches, samples, now, n - 1);
    }
}

/// The events of a scan cycle come in the order of the switches, row by row,
/// and no switch appears twice.
pub proof fn lemma_changed_switches_rise(
    switches: Seq<Debounce<bool>>,
    samples: Seq<bool>,
    now: u64,
    n: int,
)
    requires
        0 <= n,
    ensures
        forall|i: int, j: int|
            0 <= i < j < changed_switches(switches, samples, now, n).len()
                ==> #[trigger] changed_switches(switches, samples, now, n)[i]
                < #[trigger] changed_switches(switches, samples, now, n)[j],
    decreases n,
{
    if n > 0 {
        lemma_changed_switches_rise(switches, samples, now, n - 1);
        lemma_changed_switches_bounded(switches, samples, now, n - 1);
    }
}

} // verus!
