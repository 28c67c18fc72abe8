//! The keyboard as the USB host sees it: the keys held down, the modifier
//! bits, and the report made of them.
//!
//! At most six keys are reported at once. A key is in the list no more than
//! once, so a release takes it out for good.

use crate::buffer::{held_keys, keys_as_slice, keys_clear, keys_new, keys_push, keys_swap_remove};
use vstd::prelude::*;

verus! {

/// Keys that a report can hold.
pub const MAX_KEYS: usize = 6;

/// What the keyboard is told to do.
#[derive(Clone, Copy, Debug)]
pub enum HidEvent {
    /// Let go of every key and modifier.
    Reset,
    SetKey(u8),
    SetModifier(u8),
    ReleaseKey(u8),
    ReleaseModifier(u8),
}

/// The lamps of a keyboard.
#[derive(Clone, Copy, Debug)]
pub enum KeyboardLed {
    NumLock,
    CapsLock,
    ScrollLock,
    Compose,
    Kana,
}

/// The bit of a lamp in the byte that the host sends.
pub open spec fn led_mask(led: KeyboardLed) -> u8 {
    match led {
        KeyboardLed::NumLock => 0x01,
        KeyboardLed::CapsLock => 0x02,
        KeyboardLed::ScrollLock => 0x04,
        KeyboardLed::Compose => 0x08,
        KeyboardLed::Kana => 0x10,
    }
}

impl KeyboardLed {
    /// The bit of the lamp in the byte that the host sends.
    pub fn mask(self) -> (mask: u8)
        ensures
            mask == led_mask(self),
    {
        match self {
            KeyboardLed::NumLock => 0x01,
            KeyboardLed::CapsLock => 0x02,
            KeyboardLed::ScrollLock => 0x04,
            KeyboardLed::Compose => 0x08,
            KeyboardLed::Kana => 0x10,
        }
    }
}

/// The lamps as the host last set them, one bit each.
#[derive(Clone, Copy, Debug)]
pub struct LedState(pub u8);

impl LedState {
    /// All lamps off.
    pub fn new() -> (state: LedState)
        ensures
            state.0 == 0,
    {
        LedState(0)
    }

    /// Takes the byte that the host sent.
    pub fn store(&mut self, state: u8)
        ensures
            final(self).0 == state,
    {
        self.0 = state;
    }

    /// Whether a lamp is on.
    pub fn test(&self, led: KeyboardLed) -> (on: bool)
        ensures
            on == (self.0 & led_mask(led) != 0),
    {
        self.0 & led.mask() > 0
    }
}

/// The answer to a report that the host sent.
#[derive(Clone, Copy, Debug, PartialEq, Eq, Structural)]
pub enum OutResponse {
    Accepted,
    Rejected,
}

/// Answers the host's requests and keeps the lamps it sets.
pub struct HidRequestHandler {
    pub leds: LedState,
}

impl HidRequestHandler {
    pub fn new() -> (handler: HidRequestHandler)
        ensures
            handler.leds.0 == 0,
    {
        HidRequestHandler { leds: LedState::new() }
    }

    /// The host asks for the current report: there is none to give.
    pub fn get_report(&self) -> (length: Option<usize>)
        ensures
            length is None,
    {
        None
    }

    /// The host sends a report. Its first byte is the state of the lamps; a
    /// report without a byte is rejected.
    pub fn set_report(&mut self, data: &[u8]) -> (response: OutResponse)
        ensures
            data@.len() == 0 ==> response == OutResponse::Rejected && *final(self) == *old(self),
            data@.len() > 0 ==> response == OutResponse::Accepted && final(self).leds.0 == data@[0],
    {
        if data.len() == 0 {
            OutResponse::Rejected
        } else {
            self.leds.store(data[0]);
            OutResponse::Accepted
        }
    }

    /// The host asks for the idle rate: none is kept.
    pub fn get_idle_ms(&self) -> (rate: Option<u32>)
        ensures
            rate is None,
    {
        None
    }
}

/// A handler that accepts what the host sends and keeps nothing.
pub struct MyRequestHandler {}

impl MyRequestHandler {
    /// The host asks for the current report: there is none to give.
    pub fn get_report(&mut self) -> (length: Option<usize>)
        ensures
            length is None,
    {
        None
    }

    /// The host sends a report: it is accepted.
    pub fn set_report(&mut self, data: &[u8]) -> (response: OutResponse)
        ensures
            response == OutResponse::Accepted,
    {
        OutResponse::Accepted
    }

    /// The host asks for the idle rate: none is kept.
    pub fn get_idle_ms(&mut self) -> (rate: Option<u32>)
        ensures
            rate is None,
    {
        None
    }
}

/// The report of a boot keyboard.
#[derive(Clone, Copy, Debug)]
pub struct KeyboardReport {
    pub modifier: u8,
    pub reserved: u8,
    pub leds: u8,
    pub keycodes: [u8; 6],
}

/// The keys held and the modifier bits, as plain data.
pub struct HidView {
    pub keys: Seq<u8>,
    pub modifiers: u8,
}

/// Where the first `keycode` stands in `keys`, or the length of `keys` if it
/// holds none.
pub open spec fn position_of(keys: Seq<u8>, keycode: u8) -> int
    decreases keys.len(),
{
    if keys.len() == 0 {
        0
    } else if keys[0] == keycode {
        0
    } else {
        1 + position_of(keys.drop_first(), keycode)
    }
}

/// `keys` without the key at `index`: the last key takes its place.
pub open spec fn swap_removed(keys: Seq<u8>, index: int) -> Seq<u8> {
    keys.update(index, keys.last()).drop_last()
}

impl HidView {
    /// At most six keys, none of them twice.
    pub open spec fn wf(self) -> bool {
        &&& self.keys.len() <= MAX_KEYS
        &&& self.keys.no_duplicates()
    }

    /// The keyboard after an event.
    pub open spec fn apply(self, event: HidEvent) -> HidView {
        match event {
            HidEvent::Reset => HidView { keys: Seq::empty(), modifiers: 0 },
            HidEvent::SetKey(keycode) => if !self.keys.contains(keycode) && self.keys.len()
                < MAX_KEYS {
                HidView { keys: self.keys.push(keycode), ..self }
            } else {
                self
            },
            HidEvent::SetModifier(modifier) => HidView {
                modifiers: self.modifiers | modifier,
                ..self
            },
            HidEvent::ReleaseKey(keycode) => if self.keys.contains(keycode) {
                HidView {
                    keys: swap_removed(self.keys, position_of(self.keys, keycode)),
                    ..self
                }
            } else {
                self
            },
            HidEvent::ReleaseModifier(modifier) => HidView {
                modifiers: self.modifiers & !modifier,
                ..self
            },
        }
    }

    /// Whether `report` is the report of the keyboard: its modifier bits, and
    /// the keys held in their order, then zeros.
    pub open spec fn is_report(self, report: KeyboardReport) -> bool {
        &&& report.modifier == self.modifiers
        &&& report.reserved == 0
        &&& report.leds == 0
        &&& keycodes_hold(report.keycodes, self.keys)
    }

    /// The keyboard after a key of the matrix went down or up. A keycode of
    /// zero stands for no key and does nothing.
    pub open spec fn key_event(self, keycode: u8, pressed: bool) -> HidView {
        if keycode == 0 {
            self
        } else if pressed {
            self.apply(HidEvent::SetKey(keycode))
        } else {
            self.apply(HidEvent::ReleaseKey(keycode))
        }
    }
}

/// `codes` holds the first six of `keys` in their order, then zeros.
pub open spec fn keycodes_hold(codes: [u8; 6], keys: Seq<u8>) -> bool {
    forall|i: int|
        0 <= i < MAX_KEYS ==> #[trigger] codes@[i] == if i < keys.len() {
            keys[i]
        } else {
            0u8
        }
}

impl KeyboardReport {
    /// The eight bytes that go to the host: the modifier bits, a zero, and the
    /// six keycodes.
    pub fn to_bytes(&self) -> (bytes: [u8; 8])
        ensures
            bytes@ == seq![self.modifier, self.reserved] + self.keycodes@,
    {
        let bytes = [
            self.modifier,
            self.reserved,
            self.keycodes[0],
            self.keycodes[1],
            self.keycodes[2],
            self.keycodes[3],
            self.keycodes[4],
            self.keycodes[5],
        ];
        assert(bytes@ =~= seq![self.modifier, self.reserved] + self.keycodes@);
        bytes
    }
}

/// The keyboard: the keys held down and the modifier bits.
pub struct HidState {
    pressed_keys: heapless::Vec<u8, 6>,
    modifiers: u8,
}

impl View for HidState {
    type V = HidView;

    closed spec fn view(&self) -> HidView {
        HidView { keys: held_keys(self.pressed_keys), modifiers: self.modifiers }
    }
}

impl HidState {
    /// At most six keys are held, none of them twice.
    pub open spec fn wf(&self) -> bool {
        self@.wf()
    }

    /// A keyboard with no key held.
    pub fn new() -> (state: HidState)
        ensures
            state.wf(),
            state@ == (HidView { keys: Seq::empty(), modifiers: 0 }),
    {
        HidState { pressed_keys: keys_new(), modifiers: 0 }
    }

    /// Takes an event.
    ///
    /// A key is added where it is not yet held and fewer than six are; a
    /// seventh key is dropped. A key released leaves the list, and the last
    /// key takes its place.
    pub fn apply(&mut self, event: HidEvent)
        requires
            old(self).wf(),
        ensures
            final(self).wf(),
            final(self)@ == old(self)@.apply(event),
    {
        match event {
            HidEvent::Reset => {
                keys_clear(&mut self.pressed_keys);
                self.modifiers = 0;
            },
            HidEvent::SetKey(keycode) => {
                let held = keys_as_slice(&self.pressed_keys);
                if find_key(held, keycode).is_none() && held.len() < MAX_KEYS {
                    let _ = keys_push(&mut self.pressed_keys, keycode);
                    proof {
                        lemma_push_keeps_distinct(old(self)@.keys, keycode);
                    }
                }
            },
            HidEvent::SetModifier(modifier) => {
                self.modifiers = self.modifiers | modifier;
            },
            HidEvent::ReleaseKey(keycode) => {
                let held = keys_as_slice(&self.pressed_keys);
                if let Some(index) = find_key(held, keycode) {
                    let _ = keys_swap_remove(&mut self.pressed_keys, index);
                    proof {
                        lemma_swap_remove_keeps_distinct(old(self)@.keys, index as int);
                    }
                }
            },
            HidEvent::ReleaseModifier(modifier) => {
                self.modifiers = self.modifiers & !modifier;
            },
        }
    }

    /// The report of the keyboard as it stands.
    pub fn report(&self) -> (report: KeyboardReport)
        requires
            self.wf(),
        ensures
            self@.is_report(report),
    {
        let held = keys_as_slice(&self.pressed_keys);
        let mut keycodes = [0u8; 6];
        let mut i: usize = 0;
        while i < held.len()
            invariant
                i <= held.len() <= MAX_KEYS,
                forall|j: int|
                    0 <= j < MAX_KEYS ==> #[trigger] keycodes@[j] == if j < i {
                        held@[j]
                    } else {
                        0u8
                    },
            decreases held.len() - i,
        {
            keycodes[i] = held[i];
            i += 1;
        }
        KeyboardReport { modifier: self.modifiers, reserved: 0, leds: 0, keycodes }
    }

    /// Takes an event and gives the report to send.
    pub fn handle_event(&mut self, event: HidEvent) -> (report: KeyboardReport)
        requires
            old(self).wf(),
        ensures
            final(self).wf(),
            final(self)@ == old(self)@.apply(event),
            final(self)@.is_report(report),
    {
        self.apply(event);
        self.report()
    }

    /// Takes a key of the matrix that went down or up, by its keycode, and
    /// gives the report to send. A keycode of zero stands for no key: nothing
    /// changes and nothing is sent.
    pub fn handle_key(&mut self, keycode: u8, pressed: bool) -> (report: Option<KeyboardReport>)
        requires
            old(self).wf(),
        ensures
            final(self).wf(),
            final(self)@ == old(self)@.key_event(keycode, pressed),
            report is Some <==> keycode != 0,
            report matches Some(r) ==> final(self)@.is_report(r),
    {
        if keycode == 0 {
            return None;
        }
        if pressed {
            self.apply(HidEvent::SetKey(keycode));
        } else {
            self.apply(HidEvent::ReleaseKey(keycode));
        }
        Some(self.report())
    }
}

/// Where the first `keycode` stands among the keys, if it is among them.
fn find_key(keys: &[u8], keycode: u8) -> (found: Option<usize>)
    ensures
        found is Some <==> keys@.contains(keycode),
        found matches Some(index) ==> index == position_of(keys@, keycode) && index < keys@.len(),
{
    let mut i: usize = 0;
    while i < keys.len()
        invariant
            i <= keys.len(),
            forall|j: int| 0 <= j < i ==> keys@[j] != keycode,
        decreases keys.len() - i,
    {
        if keys[i] == keycode {
            proof {
                lemma_position_of_first(keys@, keycode, i as int);
            }
            return Some(i);
        }
        i += 1;
    }
    None
}

/// The first place at which a key stands is its position.
pub proof fn lemma_position_of_first(keys: Seq<u8>, keycode: u8, index: int)
    requires
        0 <= index < keys.len(),
        keys[index] == keycode,
        forall|j: int| 0 <= j < index ==> keys[j] != keycode,
    ensures
        position_of(keys, keycode) == index,
    decreases keys.len(),
{
    if index > 0 {
        let rest = keys.drop_first();
        assert(keys[0] != keycode);
        assert forall|j: int| 0 <= j < index - 1 implies rest[j] != keycode by {
            assert(rest[j] == keys[j + 1]);
        }
        lemma_position_of_first(rest, keycode, index - 1);
    }
}

/// A key that is held stands at its position, and not before it.
pub proof fn lemma_position_of_held(keys: Seq<u8>, keycode: u8)
    requires
        keys.contains(keycode),
    ensures
        0 <= position_of(keys, keycode) < keys.len(),
        keys[position_of(keys, keycode)] == keycode,
    decreases keys.len(),
{
    if keys[0] != keycode {
        let rest = keys.drop_first();
        let i = choose|i: int| 0 <= i < keys.len() && keys[i] == keycode;
        assert(rest[i - 1] == keycode);
        lemma_position_of_held(rest, keycode);
    }
}

/// Keys that are distinct stay so when a key that is not among them joins.
pub proof fn lemma_push_keeps_distinct(keys: Seq<u8>, keycode: u8)
    requires
        keys.no_duplicates(),
        !keys.contains(keycode),
    ensures
        keys.push(keycode).no_duplicates(),
{
}

/// Keys that are distinct stay so when one is taken out, and the key taken
/// out is then held no more.
pub proof fn lemma_swap_remove_keeps_distinct(keys: Seq<u8>, index: int)
    requires
        keys.no_duplicates(),
        0 <= index < keys.len(),
    ensures
        swap_removed(keys, index).no_duplicates(),
        !swap_removed(keys, index).contains(keys[index]),
        swap_removed(keys, index).len() == keys.len() - 1,
{
    let after = swap_removed(keys, index);
    assert forall|i: int| 0 <= i < after.len() implies after[i] != keys[index] by {
        if i == index {
            assert(after[i] == keys[keys.len() - 1]);
        } else {
            assert(after[i] == keys[i]);
        }
    }
}

/// A key that is released is held no more, whatever was held before.
pub proof fn lemma_released_key_is_gone(keyboard: HidView, keycode: u8)
    requires
        keyboard.wf(),
    ensures
        !keyboard.apply(HidEvent::ReleaseKey(keycode)).keys.contains(keycode),
        keyboard.apply(HidEvent::ReleaseKey(keycode)).wf(),
{
    if keyboard.keys.contains(keycode) {
        lemma_position_of_held(keyboard.keys, keycode);
        lemma_swap_remove_keeps_distinct(keyboard.keys, position_of(keyboard.keys, keycode));
    }
}

} // verus!
