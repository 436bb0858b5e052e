//! The control codes that move the cursor, reset the style and clear the
//! screen, as text.

use vstd::prelude::*;

verus! {

/// `String::push` of std: the character is appended to the string.
pub assume_specification[ String::push ](s: &mut String, c: char)
    ensures
        final(s)@ == old(s)@.push(c),
;

/// The character of a decimal digit.
pub open spec fn digit(d: int) -> char {
    if d == 0 {
        '0'
    } else if d == 1 {
        '1'
    } else if d == 2 {
        '2'
    } else if d == 3 {
        '3'
    } else if d == 4 {
        '4'
    } else if d == 5 {
        '5'
    } else if d == 6 {
        '6'
    } else if d == 7 {
        '7'
    } else if d == 8 {
        '8'
    } else {
        '9'
    }
}

/// A number in decimal digits, without leading zeros.
pub open spec fn decimal(n: nat) -> Seq<char>
    decreases n,
{
    if n < 10 {
        seq![digit(n as int)]
    } else {
        decimal(n / 10).push(digit((n % 10) as int))
    }
}

/// The code that resets the style: `ESC [ 0 m`.
pub open spec fn reset_code() -> Seq<char> {
    seq!['\x1B', '[', '0', 'm']
}

/// The code that clears the screen, sends the cursor home and resets the
/// style: `ESC [ 2 J`, `ESC [ H`, `ESC [ 0 m`.
pub open spec fn clear_code() -> Seq<char> {
    seq!['\x1B', '[', '2', 'J', '\x1B', '[', 'H', '\x1B', '[', '0', 'm']
}

/// The code that moves the cursor to column `x` of row `y`:
/// `ESC [ y ; x H`.
pub open spec fn move_code(x: u16, y: u16) -> Seq<char> {
    seq!['\x1B', '['] + decimal(y as nat) + seq![';'] + decimal(x as nat) + seq!['H']
}

fn digit_char(d: u16) -> (c: char)
    requires
        d < 10,
    ensures
        c == digit(d as int),
{
    if d == 0 {
        '0'
    } else if d == 1 {
        '1'
    } else if d == 2 {
        '2'
    } else if d == 3 {
        '3'
    } else if d == 4 {
        '4'
    } else if d == 5 {
        '5'
    } else if d == 6 {
        '6'
    } else if d == 7 {
        '7'
    } else if d == 8 {
        '8'
    } else {
        '9'
    }
}

/// Appends a number in decimal digits.
pub fn push_decimal(buf: &mut String, n: u16)
    ensures
        final(buf)@ == old(buf)@ + decimal(n as nat),
    decreases n,
{
    if n >= 10 {
        push_decimal(buf, n / 10);
    }
    buf.push(digit_char(n % 10));
    proof {
        assert(buf@ =~= old(buf)@ + decimal(n as nat));
    }
}

/// Appends the code that resets the style.
pub fn push_reset(buf: &mut String)
    ensures
        final(buf)@ == old(buf)@ + reset_code(),
{
    buf.push('\x1B');
    buf.push('[');
    buf.push('0');
    buf.push('m');
    proof {
        assert(buf@ =~= old(buf)@ + reset_code());
    }
}

/// Appends the code that moves the cursor to column `x` of row `y`.
pub fn push_move(buf: &mut String, x: u16, y: u16)
    ensures
        final(buf)@ == old(buf)@ + move_code(x, y),
{
    buf.push('\x1B');
    buf.push('[');
    push_decimal(buf, y);
    buf.push(';');
    push_decimal(buf, x);
    buf.push('H');
    proof {
        assert(buf@ =~= old(buf)@ + move_code(x, y));
    }
}

/// Appends the code that clears the screen.
pub fn push_clear(buf: &mut String)
    ensures
        final(buf)@ == old(buf)@ + clear_code(),
{
    buf.push('\x1B');
    buf.push('[');
    buf.push('2');
    buf.push('J');
    buf.push('\x1B');
    buf.push('[');
    buf.push('H');
    push_reset(buf);
    proof {
        assert(buf@ =~= old(buf)@ + clear_code());
    }
}

} // verus!
