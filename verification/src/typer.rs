//! The input classifier: whether a typed character is the expected one.

use vstd::prelude::*;

verus! {

/// Whether a typed character was the expected one.
#[derive(Debug, Clone, Copy, PartialEq, Eq, Structural)]
pub enum InputResultType {
    Miss,
    Hit,
}

/// A typed character and how it compares with the expected one.
#[derive(Debug, Clone, Copy, PartialEq, Eq, Structural)]
pub struct InputResult {
    pub c: char,
    pub typ: InputResultType,
}

/// A hit when `typed` is the expected character, a miss when it is another
/// one or when nothing is expected.
pub open spec fn classified(expected: Option<char>, typed: char) -> InputResult {
    InputResult {
        c: typed,
        typ: if expected == Some(typed) {
            InputResultType::Hit
        } else {
            InputResultType::Miss
        },
    }
}

/// Compares the typed character with the expected one, code point for code
/// point.
pub fn classify(expected: Option<char>, typed: char) -> (result: InputResult)
    ensures
        result == classified(expected, typed),
{
    match expected {
        Some(e) if e == typed => InputResult { c: typed, typ: InputResultType::Hit },
        _ => InputResult { c: typed, typ: InputResultType::Miss },
    }
}

} // verus!
