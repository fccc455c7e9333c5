//! What the chunk display shows: the player's chunk, as text, renewed
//! only when the chunk changes.

use crate::hex::{ChunkIndex, TileCoordinate};
use vstd::prelude::*;

verus! {

/// The character of one decimal digit.
pub open spec fn digit_char(d: int) -> char {
    if d == 0 {
        '0'
    } else if d == 1 {
        '1'
    } else if d == 2 {
        '2'
    } else if d == 3 {
        '3'
    } else if d == 4 {
        '4'
    } else if d == 5 {
        '5'
    } else if d == 6 {
        '6'
    } else if d == 7 {
        '7'
    } else if d == 8 {
        '8'
    } else {
        '9'
    }
}

/// The decimal digits of `n`, most significant first, without leading
/// zeros.
pub open spec fn digits(n: nat) -> Seq<char>
    decreases n,
{
    if n < 10 {
        seq![digit_char(n as int)]
    } else {
        digits(n / 10).push(digit_char((n % 10) as int))
    }
}

/// `value` in decimal, with a minus sign when it is negative.
pub open spec fn decimal(value: int) -> Seq<char> {
    if value < 0 {
        seq!['-'] + digits((-value) as nat)
    } else {
        digits(value as nat)
    }
}

/// The text shown for a chunk: `Chunk: (cq, cr)`.
pub open spec fn label_text(index: ChunkIndex) -> Seq<char> {
    seq!['C', 'h', 'u', 'n', 'k', ':', ' ', '('] + decimal(index.cq as int) + seq![',', ' ']
        + decimal(index.cr as int) + seq![')']
}

fn digit(d: u32) -> (c: char)
    requires
        d < 10,
    ensures
        c == digit_char(d as int),
{
    if d == 0 {
        '0'
    } else if d == 1 {
        '1'
    } else if d == 2 {
        '2'
    } else if d == 3 {
        '3'
    } else if d == 4 {
        '4'
    } else if d == 5 {
        '5'
    } else if d == 6 {
        '6'
    } else if d == 7 {
        '7'
    } else if d == 8 {
        '8'
    } else {
        '9'
    }
}

fn push_digits(out: &mut Vec<char>, n: u32)
    ensures
        final(out)@ == old(out)@ + digits(n as nat),
    decreases n,
{
    if n < 10 {
        out.push(digit(n));
    } else {
        push_digits(out, n / 10);
        out.push(digit(n % 10));
    }
}

fn push_decimal(out: &mut Vec<char>, value: i32)
    ensures
        final(out)@ == old(out)@ + decimal(value as int),
{
    if value < 0 {
        out.push('-');
        let magnitude: u32 = (-(value as i64)) as u32;
        push_digits(out, magnitude);
    } else {
        push_digits(out, value as u32);
    }
}

/// The characters of the text shown for chunk `index`.
pub fn chunk_label_chars(index: ChunkIndex) -> (text: Vec<char>)
    ensures
        text@ == label_text(index),
{
    let mut text: Vec<char> = Vec::new();
    text.push('C');
    text.push('h');
    text.push('u');
    text.push('n');
    text.push('k');
    text.push(':');
    text.push(' ');
    text.push('(');
    assert(text@ =~= seq!['C', 'h', 'u', 'n', 'k', ':', ' ', '(']);
    push_decimal(&mut text, index.cq);
    text.push(',');
    text.push(' ');
    assert(text@ =~= seq!['C', 'h', 'u', 'n', 'k', ':', ' ', '('] + decimal(index.cq as int)
        + seq![',', ' ']);
    push_decimal(&mut text, index.cr);
    text.push(')');
    text
}

/// Collects characters into a string with `String::from_iter`: the
/// string holds the given characters, in their order.
#[verifier::external_body]
fn string_from_chars(chars: Vec<char>) -> (text: String)
    ensures
        text@ == chars@,
{
    String::from_iter(chars)
}

/// The text shown for chunk `index`.
pub fn chunk_label(index: ChunkIndex) -> (text: String)
    ensures
        text@ == label_text(index),
{
    string_from_chars(chunk_label_chars(index))
}

/// The chunk to show once the player stands on `player`: the new chunk
/// when it differs from the one on display, and nothing when the
/// display is up to date.
pub fn update_chunk_display(shown: ChunkIndex, player: TileCoordinate) -> (change: Option<
    ChunkIndex,
>)
    ensures
        change == (if player.chunk_index() == shown {
            None
        } else {
            Some(player.chunk_index())
        }),
{
    let current = player.chunk();
    if current == shown {
        None
    } else {
        Some(current)
    }
}

} // verus!
