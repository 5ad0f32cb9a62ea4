//! The console side of the trap path: handing serial input to the
//! standard-input queue.

use vstd::prelude::*;

verus! {

/// Queue one character of serial input: a carriage return arrives as a
/// newline, everything else as itself.
pub fn serial(c: char, stdin: &mut Vec<char>)
    ensures
        final(stdin)@ == old(stdin)@.push(
            if c == '\r' {
                '\n'
            } else {
                c
            },
        ),
{
    if c == '\r' {
        stdin.push('\n');
    } else {
        stdin.push(c);
    }
}

} // verus!
