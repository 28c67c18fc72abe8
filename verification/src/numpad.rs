//! The numpad on the display: which switches are held down.

use crate::buffer::{line_new, line_text, LINE_CAPACITY};
use crate::display::{append, append_char, append_number, digits, lemma_digits_are_ascii, lemma_truncated_twice, truncated};
use crate::keyboard::SwitchEvent;
use vstd::prelude::*;
use vstd::utf8::is_ascii_chars;

verus! {

/// What the numpad sends to the host of a switch event: all of it.
pub fn handle_key_event(event: SwitchEvent) -> (sent: Option<SwitchEvent>)
    ensures
        sent == Some(event),
{
    Some(event)
}

/// Whether a position is left out of the display: the mode row, and the
/// modifier key.
pub open spec fn hidden(position: (usize, usize)) -> bool {
    position.0 == 0 || (position.0 == 1 && position.1 == 0)
}

/// A position as text: `R`, the row, `C`, the column.
pub open spec fn position_text(position: (usize, usize)) -> Seq<char> {
    seq!['R'] + digits(position.0 as nat) + seq!['C'] + digits(position.1 as nat)
}

/// The first `n` positions as text, without those left out, with a space
/// between two.
pub open spec fn listed(positions: Seq<(usize, usize)>, n: int) -> Seq<char>
    decreases n,
{
    if n <= 0 {
        Seq::empty()
    } else {
        let before = listed(positions, n - 1);
        if hidden(positions[n - 1]) {
            before
        } else if before.len() == 0 {
            position_text(positions[n - 1])
        } else {
            before + seq![' '] + position_text(positions[n - 1])
        }
    }
}

/// The line of the numpad: its tag, then the positions held down, or
/// `No keys` where none is shown.
pub open spec fn numpad_line(positions: Seq<(usize, usize)>) -> Seq<char> {
    let keys = listed(positions, positions.len() as int);
    "[NUM] "@ + if keys.len() == 0 {
        "No keys"@
    } else {
        keys
    }
}

/// The line of the numpad for the positions held down, cut off at 64
/// characters.
pub fn format_display(pressed_keys: &[(usize, usize)]) -> (text: heapless::String<64>)
    ensures
        line_text(text) == truncated(numpad_line(pressed_keys@)),
{
    let mut text = line_new();
    proof {
        reveal_strlit("[NUM] ");
        reveal_strlit("No keys");
    }
    append(&mut text, "[NUM] ");
    assert(line_text(text) =~= "[NUM] "@);
    let mut any = false;
    let mut i: usize = 0;
    while i < pressed_keys.len()
        invariant
            i <= pressed_keys.len(),
            is_ascii_chars(line_text(text)),
            line_text(text).len() <= LINE_CAPACITY,
            any == (listed(pressed_keys@, i as int).len() > 0),
            line_text(text) == truncated("[NUM] "@ + listed(pressed_keys@, i as int)),
        decreases pressed_keys.len() - i,
    {
        let (row, col) = pressed_keys[i];
        if row != 0 && !(row == 1 && col == 0) {
            let ghost head = "[NUM] "@ + listed(pressed_keys@, i as int);
            let ghost rows = digits(row as nat);
            let ghost cols = digits(col as nat);
            let ghost gap = if any {
                seq![' ']
            } else {
                Seq::<char>::empty()
            };
            if any {
                append_char(&mut text, ' ');
                proof {
                    assert(truncated(head).push(' ') =~= truncated(head) + seq![' ']);
                    lemma_truncated_twice(head, seq![' ']);
                }
            }
            assert(line_text(text) == truncated(head + gap)) by {
                assert(head + gap =~= if any {
                    head + seq![' ']
                } else {
                    head
                });
            }
            append_char(&mut text, 'R');
            append_number(&mut text, row);
            append_char(&mut text, 'C');
            append_number(&mut text, col);
            proof {
                lemma_digits_are_ascii(row as nat);
                let a = head + gap;
                assert(truncated(a).push('R') =~= truncated(a) + seq!['R']);
                lemma_truncated_twice(a, seq!['R']);
                let b = a + seq!['R'];
                lemma_truncated_twice(b, rows);
                let c = b + rows;
                assert(truncated(c).push('C') =~= truncated(c) + seq!['C']);
                lemma_truncated_twice(c, seq!['C']);
                let d = c + seq!['C'];
                lemma_truncated_twice(d, cols);
                assert(d + cols =~= "[NUM] "@ + listed(pressed_keys@, i + 1));
            }
            any = true;
        }
        i += 1;
    }
    if !any {
        append(&mut text, "No keys");
        proof {
            assert(listed(pressed_keys@, pressed_keys@.len() as int) =~= Seq::<char>::empty());
            lemma_truncated_twice("[NUM] "@ + Seq::<char>::empty(), "No keys"@);
            assert("[NUM] "@ + Seq::<char>::empty() + "No keys"@ =~= "[NUM] "@ + "No keys"@);
        }
    }
    text
}

} // verus!
