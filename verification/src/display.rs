//! Text for the display: one line of at most 64 characters. Text that does
//! not fit is cut off at the end.

use crate::buffer::{is_ascii_char, line_push, line_text, LINE_CAPACITY};
use vstd::prelude::*;
use vstd::string::StrSliceExecFns;
use vstd::utf8::is_ascii_chars;

verus! {

/// The part of a text that fits on a line: its first 64 characters.
pub open spec fn truncated(text: Seq<char>) -> Seq<char> {
    if text.len() <= LINE_CAPACITY {
        text
    } else {
        text.take(LINE_CAPACITY as int)
    }
}

/// The character of a digit.
pub open spec fn digit_of(n: int) -> char
    recommends
        0 <= n <= 9,
{
    ((0x30 + n) as u8) as char
}

/// A number in decimal digits, without leading zeros.
pub open spec fn digits(n: nat) -> Seq<char>
    decreases n,
{
    if n < 10 {
        seq![digit_of(n as int)]
    } else {
        digits(n / 10).push(digit_of((n % 10) as int))
    }
}

/// Decimal digits are ASCII.
pub proof fn lemma_digits_are_ascii(n: nat)
    ensures
        is_ascii_chars(digits(n)),
        digits(n).len() > 0,
    decreases n,
{
    if n >= 10 {
        lemma_digits_are_ascii(n / 10);
    }
}

/// Cutting off twice is cutting off once.
pub proof fn lemma_truncated_twice(head: Seq<char>, tail: Seq<char>)
    ensures
        truncated(truncated(head) + tail) == truncated(head + tail),
{
    if head.len() > LINE_CAPACITY {
        assert((truncated(head) + tail).take(LINE_CAPACITY as int) =~= head.take(
            LINE_CAPACITY as int,
        ));
        assert((head + tail).take(LINE_CAPACITY as int) =~= head.take(LINE_CAPACITY as int));
    }
}

/// Appends a character to the line, where it still fits.
pub(crate) fn append_char(line: &mut heapless::String<64>, c: char)
    requires
        is_ascii_chars(line_text(*old(line))),
        line_text(*old(line)).len() <= LINE_CAPACITY,
        is_ascii_char(c),
    ensures
        line_text(*final(line)) == truncated(line_text(*old(line)).push(c)),
        is_ascii_chars(line_text(*final(line))),
        line_text(*final(line)).len() <= LINE_CAPACITY,
{
    let _ = line_push(line, c);
    assert(line_text(*line) =~= truncated(line_text(*old(line)).push(c)));
}

/// Appends a text to the line, as far as it fits.
pub(crate) fn append(line: &mut heapless::String<64>, text: &str)
    requires
        is_ascii_chars(line_text(*old(line))),
        line_text(*old(line)).len() <= LINE_CAPACITY,
        is_ascii_chars(text@),
    ensures
        line_text(*final(line)) == truncated(line_text(*old(line)) + text@),
        is_ascii_chars(line_text(*final(line))),
        line_text(*final(line)).len() <= LINE_CAPACITY,
{
    let length = text.unicode_len();
    let mut i: usize = 0;
    assert(line_text(*line) + text@.take(0) =~= line_text(*line));
    while i < length
        invariant
            i <= length,
            length == text@.len(),
            is_ascii_chars(text@),
            is_ascii_chars(line_text(*line)),
            line_text(*line).len() <= LINE_CAPACITY,
            line_text(*line) == truncated(line_text(*old(line)) + text@.take(i as int)),
        decreases length - i,
    {
        let c = text.get_char(i);
        let ghost before = line_text(*old(line)) + text@.take(i as int);
        append_char(line, c);
        proof {
            lemma_truncated_twice(before, seq![c]);
            assert(truncated(before).push(c) =~= truncated(before) + seq![c]);
            assert(before + seq![c] =~= line_text(*old(line)) + text@.take(i + 1));
        }
        i += 1;
    }
    assert(text@.take(length as int) =~= text@);
}

/// Appends a number in decimal digits to the line, as far as it fits.
pub(crate) fn append_number(line: &mut heapless::String<64>, n: usize)
    requires
        is_ascii_chars(line_text(*old(line))),
        line_text(*old(line)).len() <= LINE_CAPACITY,
    ensures
        line_text(*final(line)) == truncated(line_text(*old(line)) + digits(n as nat)),
        is_ascii_chars(line_text(*final(line))),
        line_text(*final(line)).len() <= LINE_CAPACITY,
    decreases n,
{
    if n >= 10 {
        append_number(line, n / 10);
    }
    let ghost before = line_text(*line);
    let c = (0x30u8 + (n % 10) as u8) as char;
    assert(c == digit_of((n % 10) as int));
    append_char(line, c);
    proof {
        if n >= 10 {
            lemma_truncated_twice(
                line_text(*old(line)) + digits((n / 10) as nat),
                seq![c],
            );
            assert(before.push(c) =~= before + seq![c]);
            assert(line_text(*old(line)) + digits((n / 10) as nat) + seq![c] =~= line_text(
                *old(line),
            ) + digits(n as nat));
        } else {
            assert(before.push(c) =~= line_text(*old(line)) + digits(n as nat));
        }
    }
}

} // verus!
