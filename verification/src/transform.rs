//! Transformation combinators: pure mapping of a parsed value, fallible
//! mapping, and monadic chaining into a parser chosen from the value.

use crate::character::Any;
use crate::lemma_remainder_trans;
use crate::multi::Take;
use crate::Parse;
use vstd::prelude::*;

verus! {

/// A pure transformation of a parsed value. The specification-level
/// [`MapFn::spec_call`] says what the transformation returns, and the
/// executable [`MapFn::call`] returns exactly that.
pub trait MapFn<A: DeepView>: Sized {
    /// The type of the transformed value.
    type Output: DeepView;

    /// What the transformation returns, at the specification level.
    spec fn spec_call(&self, a: <A as DeepView>::V) -> <Self::Output as DeepView>::V;

    /// Transform `a`.
    fn call(&self, a: A) -> (r: Self::Output)
        ensures
            r.deep_view() == self.spec_call(a.deep_view()),
    ;
}

/// A fallible transformation of a parsed value: it may reject the value
/// instead of transforming it. [`TryMapFn::spec_call`] says exactly when
/// it rejects and what it returns otherwise.
pub trait TryMapFn<A: DeepView>: Sized {
    /// The type of the transformed value.
    type Output: DeepView;

    /// What the transformation returns, at the specification level:
    /// `None` rejects the value.
    spec fn spec_call(&self, a: <A as DeepView>::V) -> Option<
        <Self::Output as DeepView>::V,
    >;

    /// Transform `a`, or reject it.
    fn call(&self, a: A) -> (r: Option<Self::Output>)
        ensures
            r is Some <==> self.spec_call(a.deep_view()) is Some,
            r matches Some(b) ==> self.spec_call(a.deep_view()) == Some(b.deep_view()),
    ;
}

/// A parser-valued function: from a parsed value it constructs the parser
/// to run next. [`BindFn::spec_call`] says exactly which parser.
pub trait BindFn<A: DeepView>: Sized {
    /// The type of the constructed parser.
    type Output: Parse;

    /// Which parser is constructed, at the specification level.
    spec fn spec_call(&self, a: <A as DeepView>::V) -> Self::Output;

    /// Construct the parser for `a`.
    fn call(&self, a: A) -> (r: Self::Output)
        ensures
            r == self.spec_call(a.deep_view()),
    ;
}

/// Runs `parser`; on success transforms the value with `map_fn`. Failure
/// propagates unchanged, and the remainder is untouched.
#[derive(Clone, Copy)]
pub struct Mapped<P, F> {
    pub parser: P,
    pub map_fn: F,
}

impl<P, F> Mapped<P, F> {
    /// Transform `parser`'s value with `map_fn`.
    pub fn new(parser: P, map_fn: F) -> (r: Self)
        ensures
            r.parser == parser,
            r.map_fn == map_fn,
    {
        Self { parser, map_fn }
    }
}

impl<P, F> Parse for Mapped<P, F> where P: Parse, F: MapFn<P::Item> {
    type Item = F::Output;

    open spec fn spec_parse(&self, s: Seq<char>) -> Option<
        (<F::Output as DeepView>::V, Seq<char>),
    > {
        match self.parser.spec_parse(s) {
            Some((parsed, rest)) => Some((self.map_fn.spec_call(parsed), rest)),
            None => None,
        }
    }

    proof fn lemma_parse_suffix(&self, s: Seq<char>) {
        self.parser.lemma_parse_suffix(s);
    }

    fn parse<'a>(&self, input: &'a str) -> (r: Option<(Self::Item, &'a str)>) {
        match self.parser.parse(input) {
            Some((parsed, rest)) => Some((self.map_fn.call(parsed), rest)),
            None => None,
        }
    }
}

/// Mapping is pure: the mapped parser succeeds exactly when the underlying
/// parser succeeds, with the same remainder, and the value is the map
/// function applied to the underlying value.
pub proof fn lemma_map_purity<P, F>(m: Mapped<P, F>, s: Seq<char>) where
    P: Parse,
    F: MapFn<P::Item>,

    ensures
        match m.parser.spec_parse(s) {
            Some((parsed, rest)) => m.spec_parse(s) == Some(
                (m.map_fn.spec_call(parsed), rest),
            ),
            None => m.spec_parse(s) is None,
        },
{
}

/// Maps a character to its Unicode code point.
#[derive(Clone, Copy)]
pub struct CodePoint;

impl MapFn<char> for CodePoint {
    type Output = u32;

    open spec fn spec_call(&self, c: char) -> u32 {
        c as u32
    }

    fn call(&self, c: char) -> (r: u32) {
        c as u32
    }
}

/// From a digit character, the parser that consumes exactly that many
/// following characters — the classic length-prefixed grammar, built with
/// [`Bind`]. A non-digit counts as zero, and consuming exactly zero
/// characters is an error by [`Take`]'s contract.
#[derive(Clone, Copy)]
pub struct TakeDigitCount;

impl BindFn<char> for TakeDigitCount {
    type Output = Take<Any>;

    open spec fn spec_call(&self, c: char) -> Take<Any> {
        Take {
            parser: Any {  },
            n: if 48 <= c as u32 <= 57 {
                (c as u32 - 48) as usize
            } else {
                0
            },
        }
    }

    fn call(&self, c: char) -> (r: Take<Any>) {
        let code = c as u32;
        let n: usize = if 48 <= code && code <= 57 {
            (code - 48) as usize
        } else {
            0
        };
        Take { parser: Any {  }, n }
    }
}

/// Runs `parser`; applies the fallible transformation `and_then_fn` to the
/// value. Fails if `parser` fails or if the transformation rejects the
/// value.
#[derive(Clone, Copy)]
pub struct AndThen<P, F> {
    pub parser: P,
    pub and_then_fn: F,
}

impl<P, F> AndThen<P, F> {
    /// Validate or convert `parser`'s value with `and_then_fn`.
    pub fn new(parser: P, and_then_fn: F) -> (r: Self)
        ensures
            r.parser == parser,
            r.and_then_fn == and_then_fn,
    {
        Self { parser, and_then_fn }
    }
}

impl<P, F> Parse for AndThen<P, F> where P: Parse, F: TryMapFn<P::Item> {
    type Item = F::Output;

    open spec fn spec_parse(&self, s: Seq<char>) -> Option<
        (<F::Output as DeepView>::V, Seq<char>),
    > {
        match self.parser.spec_parse(s) {
            Some((parsed, rest)) => match self.and_then_fn.spec_call(parsed) {
                Some(mapped) => Some((mapped, rest)),
                None => None,
            },
            None => None,
        }
    }

    proof fn lemma_parse_suffix(&self, s: Seq<char>) {
        self.parser.lemma_parse_suffix(s);
    }

    fn parse<'a>(&self, input: &'a str) -> (r: Option<(Self::Item, &'a str)>) {
        match self.parser.parse(input) {
            Some((parsed, rest)) => match self.and_then_fn.call(parsed) {
                Some(mapped) => Some((mapped, rest)),
                None => None,
            },
            None => None,
        }
    }
}

/// Runs `parser`; from its value constructs a new parser with `bind_fn`
/// and runs that against the remainder. This is the monadic hook for
/// context-sensitive grammars.
#[derive(Clone, Copy)]
pub struct Bind<P, F> {
    pub parser: P,
    pub bind_fn: F,
}

impl<P, F> Bind<P, F> {
    /// Chain `parser` into the parser that `bind_fn` constructs from its
    /// value.
    pub fn new(parser: P, bind_fn: F) -> (r: Self)
        ensures
            r.parser == parser,
            r.bind_fn == bind_fn,
    {
        Self { parser, bind_fn }
    }
}

impl<P, F> Parse for Bind<P, F> where P: Parse, F: BindFn<P::Item> {
    type Item = <F::Output as Parse>::Item;

    open spec fn spec_parse(&self, s: Seq<char>) -> Option<
        (<<F::Output as Parse>::Item as DeepView>::V, Seq<char>),
    > {
        match self.parser.spec_parse(s) {
            Some((parsed, rest)) => self.bind_fn.spec_call(parsed).spec_parse(rest),
            None => None,
        }
    }

    proof fn lemma_parse_suffix(&self, s: Seq<char>) {
        self.parser.lemma_parse_suffix(s);
        if let Some((parsed, rest)) = self.parser.spec_parse(s) {
            let continuation = self.bind_fn.spec_call(parsed);
            continuation.lemma_parse_suffix(rest);
            if let Some((_, rest2)) = continuation.spec_parse(rest) {
                lemma_remainder_trans(rest2, rest, s);
            }
        }
    }

    fn parse<'a>(&self, input: &'a str) -> (r: Option<(Self::Item, &'a str)>) {
        match self.parser.parse(input) {
            Some((parsed, rest)) => self.bind_fn.call(parsed).parse(rest),
            None => None,
        }
    }
}

} // verus!
