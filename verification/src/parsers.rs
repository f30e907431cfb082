//! Short-named constructors for the character-level primitives, for
//! grammars written in a terse style.

use crate::character::Any;
use crate::character::CharPred;
use crate::character::IsChar;
use crate::character::Satisfy;
use vstd::prelude::*;

verus! {

/// Consumes exactly one character; fails on empty input.
pub fn item() -> (r: Any)
    ensures
        r == (Any {  }),
{
    Any {  }
}

/// Consumes one character iff `predicate` accepts it.
pub fn sat<P: CharPred>(predicate: P) -> (r: Satisfy<P>)
    ensures
        r.predicate == predicate,
{
    Satisfy { predicate }
}

/// Matches the one character `expected`.
pub fn ch(expected: char) -> (r: Satisfy<IsChar>)
    ensures
        r.predicate.expected == expected,
{
    Satisfy { predicate: IsChar { expected } }
}

} // verus!
