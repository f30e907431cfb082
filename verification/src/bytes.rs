//! String-level primitive parser: literal-string matching.

use crate::Parse;
use vstd::prelude::*;

verus! {

/// Consumes the prefix `expected` iff the input starts with it,
/// character-exact; fails otherwise, consuming nothing.
#[derive(Clone, Copy)]
pub struct Literal<'e> {
    pub expected: &'e str,
}

impl<'e> Parse for Literal<'e> {
    type Item = &'e str;

    open spec fn spec_parse(&self, s: Seq<char>) -> Option<(Seq<char>, Seq<char>)> {
        if self.expected@.len() <= s.len() && s.subrange(0, self.expected@.len() as int)
            == self.expected@ {
            Some(
                (
                    self.expected@,
                    s.subrange(self.expected@.len() as int, s.len() as int),
                ),
            )
        } else {
            None
        }
    }

    proof fn lemma_parse_suffix(&self, s: Seq<char>) {
    }

    fn parse<'a>(&self, input: &'a str) -> (r: Option<(&'e str, &'a str)>) {
        let n = self.expected.unicode_len();
        let m = input.unicode_len();
        if n > m {
            return None;
        }
        let mut i: usize = 0;
        while i < n
            invariant
                i <= n,
                n == self.expected@.len(),
                m == input@.len(),
                n <= m,
                forall|j: int| 0 <= j < i ==> input@[j] == self.expected@[j],
            decreases n - i,
        {
            if input.get_char(i) != self.expected.get_char(i) {
                proof {
                    assert(input@.subrange(0, n as int)[i as int] == input@[i as int]);
                }
                return None;
            }
            i = i + 1;
        }
        proof {
            assert(input@.subrange(0, n as int) =~= self.expected@);
        }
        Some((self.expected, input.substring_char(n, m)))
    }
}

/// Matches the literal string `expected` at the front of the input.
pub fn literal<'e>(expected: &'e str) -> (r: Literal<'e>)
    ensures
        r.expected == expected,
{
    Literal { expected }
}

} // verus!
