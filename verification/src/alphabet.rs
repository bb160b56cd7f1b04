//! The instruction alphabet: eight symbols, and the newline that delimits lines.
use vstd::prelude::*;

verus! {

/// One of the eight instruction symbols.
pub open spec fn is_instruction(c: char) -> bool {
    c == '>' || c == '<' || c == '+' || c == '-' || c == '.' || c == ',' || c == '[' || c == ']'
}

/// An instruction symbol or a newline: the characters a normalized stream may hold.
pub open spec fn in_alphabet(c: char) -> bool {
    is_instruction(c) || c == '\n'
}

/// Tells whether `c` is an instruction symbol.
pub fn is_instruction_char(c: char) -> (b: bool)
    ensures
        b == is_instruction(c),
{
    c == '>' || c == '<' || c == '+' || c == '-' || c == '.' || c == ',' || c == '[' || c == ']'
}

/// Tells whether `c` may stand in a normalized stream.
pub fn is_alphabet_char(c: char) -> (b: bool)
    ensures
        b == in_alphabet(c),
{
    is_instruction_char(c) || c == '\n'
}

} // verus!
