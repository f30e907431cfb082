//! Alternation: try one parser; if it fails, try the other against the
//! original, untouched input.

use crate::Parse;
use vstd::prelude::*;

verus! {

/// Runs `parser`; if it fails, runs `other` against the original input.
/// Left-biased: `parser`'s success is never overridden by `other`.
/// Backtracking is free because a failed branch never consumes input.
#[derive(Clone, Copy)]
pub struct Or<P, Q> {
    pub parser: P,
    pub other: Q,
}

impl<P, Q> Or<P, Q> {
    /// Prefer `parser`; fall back to `other`.
    pub fn new(parser: P, other: Q) -> (r: Self)
        ensures
            r.parser == parser,
            r.other == other,
    {
        Self { parser, other }
    }
}

impl<P, Q> Parse for Or<P, Q> where P: Parse, Q: Parse<Item = P::Item> {
    type Item = P::Item;

    open spec fn spec_parse(&self, s: Seq<char>) -> Option<
        (<P::Item as DeepView>::V, Seq<char>),
    > {
        match self.parser.spec_parse(s) {
            Some(success) => Some(success),
            None => self.other.spec_parse(s),
        }
    }

    proof fn lemma_parse_suffix(&self, s: Seq<char>) {
        self.parser.lemma_parse_suffix(s);
        self.other.lemma_parse_suffix(s);
    }

    fn parse<'a>(&self, input: &'a str) -> (r: Option<(Self::Item, &'a str)>) {
        match self.parser.parse(input) {
            Some(success) => Some(success),
            None => self.other.parse(input),
        }
    }
}

/// Alternation is left-biased: whenever the first branch succeeds, the
/// alternation returns exactly what the first branch returns, and the
/// second branch is never consulted.
pub proof fn lemma_or_left_bias<P, Q>(o: Or<P, Q>, s: Seq<char>) where
    P: Parse,
    Q: Parse<Item = P::Item>,

    requires
        o.parser.spec_parse(s) is Some,
    ensures
        o.spec_parse(s) == o.parser.spec_parse(s),
{
}

/// Alternation loses no progress on failure: when the first branch fails,
/// the alternation returns exactly what the second branch returns on the
/// original input, as if the first branch were absent.
pub proof fn lemma_or_no_progress_loss<P, Q>(o: Or<P, Q>, s: Seq<char>) where
    P: Parse,
    Q: Parse<Item = P::Item>,

    requires
        o.parser.spec_parse(s) is None,
    ensures
        o.spec_parse(s) == o.other.spec_parse(s),
{
}

} // verus!
