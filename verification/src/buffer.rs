//! The fixed-capacity collections of `heapless` that the library holds, and
//! what is taken on trust of them.
//!
//! Each collection has a name for what it holds: [`buffer_text`] for the
//! calculator's entry, [`events_of`] for the events of a scan cycle,
//! [`held_keys`] for the keycodes of a keyboard report, [`line_text`] for a
//! line of the display, [`positions_of`] for a list of matrix positions. A
//! string counts its capacity in bytes; the contracts here speak of ASCII
//! text only, where a character is a byte.

use crate::keypad::KeyEvent;
use vstd::prelude::*;
use vstd::utf8::is_ascii_chars;

verus! {

/// Bytes that an entry buffer holds at most.
pub const BUFFER_CAPACITY: usize = 32;

/// `heapless::String`, a string of at most `N` bytes. Nothing is seen inside
/// it: what it holds is known by the calls below alone.
#[verifier::external_type_specification]
#[verifier::external_body]
pub struct ExHeaplessString<const N: usize>(heapless::String<N>);

/// The characters a buffer holds, first to last.
pub uninterp spec fn buffer_text(buffer: heapless::String<32>) -> Seq<char>;

/// Whether `c` is one byte in UTF-8.
pub open spec fn is_ascii_char(c: char) -> bool {
    '\0' <= c <= '\u{7f}'
}

/// Calls `heapless::String::new`, which gives an empty buffer.
#[verifier::external_body]
pub(crate) fn buffer_new() -> (buffer: heapless::String<32>)
    ensures
        buffer_text(buffer) == Seq::<char>::empty(),
{
    heapless::String::new()
}

/// Calls `heapless::String::clear`, which empties the buffer.
#[verifier::external_body]
pub(crate) fn buffer_clear(buffer: &mut heapless::String<32>)
    ensures
        buffer_text(*final(buffer)) == Seq::<char>::empty(),
{
    buffer.clear()
}

/// Calls `heapless::String::push`. For ASCII text and an ASCII character the
/// push succeeds exactly when fewer than 32 characters are held; a push that
/// fails changes nothing.
#[verifier::external_body]
pub(crate) fn buffer_push(buffer: &mut heapless::String<32>, c: char) -> (r: Result<(), ()>)
    requires
        is_ascii_chars(buffer_text(*old(buffer))),
        is_ascii_char(c),
    ensures
        r is Ok <==> buffer_text(*old(buffer)).len() < BUFFER_CAPACITY,
        r is Ok ==> buffer_text(*final(buffer)) == buffer_text(*old(buffer)).push(c),
        r is Err ==> buffer_text(*final(buffer)) == buffer_text(*old(buffer)),
{
    buffer.push(c)
}

/// Calls `heapless::String::push_str`. For ASCII texts the whole of `text` is
/// appended where it fits in the 32 characters; else nothing is.
#[verifier::external_body]
pub(crate) fn buffer_push_str(buffer: &mut heapless::String<32>, text: &str) -> (r: Result<(), ()>)
    requires
        is_ascii_chars(buffer_text(*old(buffer))),
        is_ascii_chars(text@),
    ensures
        r is Ok <==> buffer_text(*old(buffer)).len() + text@.len() <= BUFFER_CAPACITY,
        r is Ok ==> buffer_text(*final(buffer)) == buffer_text(*old(buffer)) + text@,
        r is Err ==> buffer_text(*final(buffer)) == buffer_text(*old(buffer)),
{
    buffer.push_str(text)
}

/// Calls `heapless::String::as_str`, which lends the text held.
#[verifier::external_body]
pub(crate) fn buffer_as_str(buffer: &heapless::String<32>) -> (text: &str)
    ensures
        text@ == buffer_text(*buffer),
{
    buffer.as_str()
}

/// `heapless::Vec`, a vector of at most `N` items. Nothing is seen inside
/// it: what it holds is known by the calls below alone.
#[verifier::external_type_specification]
#[verifier::external_body]
#[verifier::reject_recursive_types(T)]
pub struct ExHeaplessVec<T, const N: usize>(heapless::Vec<T, N>);

/// The events that a batch holds, first to last.
pub uninterp spec fn events_of(events: heapless::Vec<KeyEvent, 24>) -> Seq<KeyEvent>;

/// Calls `heapless::Vec::new`, which gives an empty vector.
#[verifier::external_body]
pub(crate) fn events_new() -> (events: heapless::Vec<KeyEvent, 24>)
    ensures
        events_of(events) == Seq::<KeyEvent>::empty(),
{
    heapless::Vec::new()
}

/// Calls `heapless::Vec::push`, which appends the event where fewer than 24
/// are held, and else hands it back and changes nothing.
#[verifier::external_body]
pub(crate) fn events_push(events: &mut heapless::Vec<KeyEvent, 24>, event: KeyEvent) -> (r: Result<
    (),
    KeyEvent,
>)
    ensures
        r is Ok <==> events_of(*old(events)).len() < 24,
        r is Ok ==> events_of(*final(events)) == events_of(*old(events)).push(event),
        r matches Err(back) ==> back == event && events_of(*final(events)) == events_of(
            *old(events),
        ),
{
    events.push(event)
}

/// The keycodes that a list of held keys holds, first to last.
pub uninterp spec fn held_keys(keys: heapless::Vec<u8, 6>) -> Seq<u8>;

/// Calls `heapless::Vec::new`, which gives an empty vector.
#[verifier::external_body]
pub(crate) fn keys_new() -> (keys: heapless::Vec<u8, 6>)
    ensures
        held_keys(keys) == Seq::<u8>::empty(),
{
    heapless::Vec::new()
}

/// Calls `heapless::Vec::push`, which appends the keycode where fewer than 6
/// are held, and else hands it back and changes nothing.
#[verifier::external_body]
pub(crate) fn keys_push(keys: &mut heapless::Vec<u8, 6>, keycode: u8) -> (r: Result<(), u8>)
    ensures
        r is Ok <==> held_keys(*old(keys)).len() < 6,
        r is Ok ==> held_keys(*final(keys)) == held_keys(*old(keys)).push(keycode),
        r matches Err(back) ==> back == keycode && held_keys(*final(keys)) == held_keys(
            *old(keys),
        ),
{
    keys.push(keycode)
}

/// Calls `heapless::Vec::swap_remove`, which takes out the keycode at
/// `index`, puts the last keycode in its place and returns what it took out.
/// It panics on an index that is not below the length.
#[verifier::external_body]
pub(crate) fn keys_swap_remove(keys: &mut heapless::Vec<u8, 6>, index: usize) -> (removed: u8)
    requires
        index < held_keys(*old(keys)).len(),
    ensures
        removed == held_keys(*old(keys))[index as int],
        held_keys(*final(keys)) == held_keys(*old(keys)).update(
            index as int,
            held_keys(*old(keys)).last(),
        ).drop_last(),
{
    keys.swap_remove(index)
}

/// Calls `heapless::Vec::clear`, which empties the vector.
#[verifier::external_body]
pub(crate) fn keys_clear(keys: &mut heapless::Vec<u8, 6>)
    ensures
        held_keys(*final(keys)) == Seq::<u8>::empty(),
{
    keys.clear()
}

/// Calls `heapless::Vec::as_slice`, which lends what the vector holds.
#[verifier::external_body]
pub(crate) fn keys_as_slice(keys: &heapless::Vec<u8, 6>) -> (slice: &[u8])
    ensures
        slice@ == held_keys(*keys),
{
    keys.as_slice()
}

/// Bytes that a line of the display holds at most.
pub const LINE_CAPACITY: usize = 64;

/// The characters that a line of the display holds, first to last.
pub uninterp spec fn line_text(line: heapless::String<64>) -> Seq<char>;

/// Calls `heapless::String::new`, which gives an empty line.
#[verifier::external_body]
pub(crate) fn line_new() -> (line: heapless::String<64>)
    ensures
        line_text(line) == Seq::<char>::empty(),
{
    heapless::String::new()
}

/// Calls `heapless::String::push`. For ASCII text and an ASCII character the
/// push succeeds exactly when fewer than 64 characters are held; a push that
/// fails changes nothing.
#[verifier::external_body]
pub(crate) fn line_push(line: &mut heapless::String<64>, c: char) -> (r: Result<(), ()>)
    requires
        is_ascii_chars(line_text(*old(line))),
        is_ascii_char(c),
    ensures
        r is Ok <==> line_text(*old(line)).len() < LINE_CAPACITY,
        r is Ok ==> line_text(*final(line)) == line_text(*old(line)).push(c),
        r is Err ==> line_text(*final(line)) == line_text(*old(line)),
{
    line.push(c)
}

/// The positions that a list holds, first to last, each a row and a column.
pub uninterp spec fn positions_of(positions: heapless::Vec<(usize, usize), 24>) -> Seq<
    (usize, usize),
>;

/// Calls `heapless::Vec::new`, which gives an empty vector.
#[verifier::external_body]
pub(crate) fn positions_new() -> (positions: heapless::Vec<(usize, usize), 24>)
    ensures
        positions_of(positions) == Seq::<(usize, usize)>::empty(),
{
    heapless::Vec::new()
}

/// Calls `heapless::Vec::push`, which appends the position where fewer than
/// 24 are held, and else hands it back and changes nothing.
#[verifier::external_body]
pub(crate) fn positions_push(
    positions: &mut heapless::Vec<(usize, usize), 24>,
    position: (usize, usize),
) -> (r: Result<(), (usize, usize)>)
    ensures
        r is Ok <==> positions_of(*old(positions)).len() < 24,
        r is Ok ==> positions_of(*final(positions)) == positions_of(*old(positions)).push(
            position,
        ),
        r matches Err(back) ==> back == position && positions_of(*final(positions))
            == positions_of(*old(positions)),
{
    positions.push(position)
}

/// Calls `heapless::Vec::as_slice`, which lends what the vector holds.
#[verifier::external_body]
pub(crate) fn positions_as_slice(positions: &heapless::Vec<(usize, usize), 24>) -> (slice: &[(
    usize,
    usize,
)])
    ensures
        slice@ == positions_of(*positions),
{
    positions.as_slice()
}

} // verus!
