//! Sequencing combinators: run one parser, then another on the remainder,
//! keeping both values, only the first, or only the second.

use crate::lemma_remainder_trans;
use crate::Parse;
use vstd::prelude::*;

verus! {

/// Runs `parser`, then `next` on the remainder; succeeds with the pair of
/// both values. If either fails, the whole fails with no partial result.
#[derive(Clone, Copy)]
pub struct And<P, Q> {
    pub parser: P,
    pub next: Q,
}

impl<P, Q> And<P, Q> {
    /// Sequence `parser` and `next`.
    pub fn new(parser: P, next: Q) -> (r: Self)
        ensures
            r.parser == parser,
            r.next == next,
    {
        Self { parser, next }
    }
}

impl<P, Q> Parse for And<P, Q> where P: Parse, Q: Parse {
    type Item = (P::Item, Q::Item);

    open spec fn spec_parse(&self, s: Seq<char>) -> Option<
        ((<P::Item as DeepView>::V, <Q::Item as DeepView>::V), Seq<char>),
    > {
        match self.parser.spec_parse(s) {
            Some((first, rest)) => match self.next.spec_parse(rest) {
                Some((second, rest2)) => Some(((first, second), rest2)),
                None => None,
            },
            None => None,
        }
    }

    proof fn lemma_parse_suffix(&self, s: Seq<char>) {
        self.parser.lemma_parse_suffix(s);
        if let Some((first, rest)) = self.parser.spec_parse(s) {
            self.next.lemma_parse_suffix(rest);
            if let Some((second, rest2)) = self.next.spec_parse(rest) {
                lemma_remainder_trans(rest2, rest, s);
            }
        }
    }

    fn parse<'a>(&self, input: &'a str) -> (r: Option<(Self::Item, &'a str)>) {
        match self.parser.parse(input) {
            Some((first, rest)) => match self.next.parse(rest) {
                Some((second, rest2)) => Some(((first, second), rest2)),
                None => None,
            },
            None => None,
        }
    }
}

/// Runs `parser`, then `next` on the remainder; keeps only `parser`'s
/// value.
#[derive(Clone, Copy)]
pub struct AndSkip<P, Q> {
    pub parser: P,
    pub next: Q,
}

impl<P, Q> AndSkip<P, Q> {
    /// Sequence `parser` and `next`, keeping only `parser`'s value.
    pub fn new(parser: P, next: Q) -> (r: Self)
        ensures
            r.parser == parser,
            r.next == next,
    {
        Self { parser, next }
    }
}

impl<P, Q> Parse for AndSkip<P, Q> where P: Parse, Q: Parse {
    type Item = P::Item;

    open spec fn spec_parse(&self, s: Seq<char>) -> Option<
        (<P::Item as DeepView>::V, Seq<char>),
    > {
        match self.parser.spec_parse(s) {
            Some((parsed, rest)) => match self.next.spec_parse(rest) {
                Some((_, rest2)) => Some((parsed, rest2)),
                None => None,
            },
            None => None,
        }
    }

    proof fn lemma_parse_suffix(&self, s: Seq<char>) {
        self.parser.lemma_parse_suffix(s);
        if let Some((parsed, rest)) = self.parser.spec_parse(s) {
            self.next.lemma_parse_suffix(rest);
            if let Some((_, rest2)) = self.next.spec_parse(rest) {
                lemma_remainder_trans(rest2, rest, s);
            }
        }
    }

    fn parse<'a>(&self, input: &'a str) -> (r: Option<(Self::Item, &'a str)>) {
        match self.parser.parse(input) {
            Some((parsed, rest)) => match self.next.parse(rest) {
                Some((_, rest2)) => Some((parsed, rest2)),
                None => None,
            },
            None => None,
        }
    }
}

/// Runs `parser`, then `next` on the remainder; keeps only `next`'s value.
#[derive(Clone, Copy)]
pub struct SkipAnd<P, Q> {
    pub parser: P,
    pub next: Q,
}

impl<P, Q> SkipAnd<P, Q> {
    /// Sequence `parser` and `next`, keeping only `next`'s value.
    pub fn new(parser: P, next: Q) -> (r: Self)
        ensures
            r.parser == parser,
            r.next == next,
    {
        Self { parser, next }
    }
}

impl<P, Q> Parse for SkipAnd<P, Q> where P: Parse, Q: Parse {
    type Item = Q::Item;

    open spec fn spec_parse(&self, s: Seq<char>) -> Option<
        (<Q::Item as DeepView>::V, Seq<char>),
    > {
        match self.parser.spec_parse(s) {
            Some((_, rest)) => match self.next.spec_parse(rest) {
                Some((parsed, rest2)) => Some((parsed, rest2)),
                None => None,
            },
            None => None,
        }
    }

    proof fn lemma_parse_suffix(&self, s: Seq<char>) {
        self.parser.lemma_parse_suffix(s);
        if let Some((_, rest)) = self.parser.spec_parse(s) {
            self.next.lemma_parse_suffix(rest);
            if let Some((parsed, rest2)) = self.next.spec_parse(rest) {
                lemma_remainder_trans(rest2, rest, s);
            }
        }
    }

    fn parse<'a>(&self, input: &'a str) -> (r: Option<(Self::Item, &'a str)>) {
        match self.parser.parse(input) {
            Some((_, rest)) => match self.next.parse(rest) {
                Some((parsed, rest2)) => Some((parsed, rest2)),
                None => None,
            },
            None => None,
        }
    }
}

} // verus!
