//! Terminal control: the escape sequences that move and show the cursor.
//!
//! Every function returns text to print. Flush what was printed before, and
//! print nothing else in the same call.

use crate::text::{decimal, push_decimal};
use vstd::prelude::*;

verus! {

/// The escape sequence that moves the cursor `n` places in the direction
/// that `direction` names.
pub open spec fn cursor_move(n: nat, direction: char) -> Seq<char> {
    seq!['\x1B', '['] + decimal(n) + seq![direction]
}

/// The escape sequence that shows or hides the cursor.
pub open spec fn cursor_visibility(show: bool) -> Seq<char> {
    if show {
        "\x1B[?25h"@
    } else {
        "\x1B[?25l"@
    }
}

fn move_cursor(n: usize, direction: char) -> (sequence: String)
    ensures
        sequence@ == cursor_move(n as nat, direction),
{
    let mut sequence = String::new();
    sequence.push('\x1B');
    sequence.push('[');
    push_decimal(&mut sequence, n as u64);
    sequence.push(direction);
    assert(sequence@ =~= cursor_move(n as nat, direction));
    sequence
}

/// Move the cursor `n` lines up.
pub fn move_cursor_up(n: usize) -> (sequence: String)
    ensures
        sequence@ == cursor_move(n as nat, 'A'),
{
    move_cursor(n, 'A')
}

/// Move the cursor `n` lines down.
pub fn move_cursor_down(n: usize) -> (sequence: String)
    ensures
        sequence@ == cursor_move(n as nat, 'B'),
{
    move_cursor(n, 'B')
}

/// Move the cursor `n` characters back, that is to the left.
pub fn move_cursor_back(n: usize) -> (sequence: String)
    ensures
        sequence@ == cursor_move(n as nat, 'D'),
{
    move_cursor(n, 'D')
}

/// Show or hide the cursor.
pub fn show_cursor(show: bool) -> (sequence: &'static str)
    ensures
        sequence@ == cursor_visibility(show),
{
    if show {
        "\x1B[?25h"
    } else {
        "\x1B[?25l"
    }
}

} // verus!
