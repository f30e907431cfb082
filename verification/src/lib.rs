//! A parser-combinator engine over textual input.
//!
//! A parser is a value implementing [`Parse`]: given a remaining-input view
//! (`&str`), it either fails or yields a parsed value together with the
//! suffix of the input that it did not consume. Primitives match single
//! characters, literal strings and integers; combinators compose parsers
//! into larger parsers by sequencing, alternation, repetition,
//! transformation and monadic chaining.
//!
//! Every parser carries a specification-level description of its behaviour,
//! [`Parse::spec_parse`], and the executable [`Parse::parse`] is proved to
//! agree with it. Every parser is also proved to return a suffix of its
//! input on success ([`Parse::lemma_parse_suffix`]).

pub mod branch;
pub mod bytes;
pub mod character;
pub mod multi;
pub mod number;
pub mod parsers;
pub mod sequence;
pub mod transform;

pub use branch::Or;
pub use branch::lemma_or_left_bias;
pub use branch::lemma_or_no_progress_loss;
pub use bytes::Literal;
pub use bytes::literal;
pub use character::Any;
pub use character::CharPred;
pub use character::IsAlphanumeric;
pub use character::IsChar;
pub use character::IsDigit;
pub use character::IsLower;
pub use character::IsNotChar;
pub use character::IsUpper;
pub use character::IsWhitespace;
pub use character::Satisfy;
pub use character::alphanum;
pub use character::any;
pub use character::char;
pub use character::digit;
pub use character::lower;
pub use character::lowercase_of;
pub use character::not;
pub use character::satisfy;
pub use character::upper;
pub use character::uppercase_of;
pub use character::whitespace;
pub use character::whitespace_of;
pub use multi::Many1;
pub use multi::Many;
pub use multi::Take;
pub use multi::can_apply;
pub use multi::lemma_many1_minimality;
pub use multi::lemma_many_total;
pub use multi::lemma_take_exactness;
pub use multi::many_rec;
pub use multi::take_rec;
pub use number::IntegerParser;
pub use number::IntoInteger;
pub use number::integer;
pub use parsers::ch;
pub use parsers::item;
pub use parsers::sat;
pub use sequence::And;
pub use sequence::AndSkip;
pub use sequence::SkipAnd;
pub use transform::AndThen;
pub use transform::Bind;
pub use transform::BindFn;
pub use transform::CodePoint;
pub use transform::MapFn;
pub use transform::Mapped;
pub use transform::TakeDigitCount;
pub use transform::TryMapFn;
pub use transform::lemma_map_purity;

use vstd::prelude::*;

verus! {

/// `rest` is what is left of `s` after consuming characters from the front:
/// a suffix of `s`, never longer than `s` and never holding characters that
/// `s` does not hold.
pub open spec fn is_remainder_of(rest: Seq<char>, s: Seq<char>) -> bool {
    &&& rest.len() <= s.len()
    &&& rest == s.subrange(s.len() - rest.len(), s.len() as int)
}

/// The remainder relation is transitive: a suffix of a suffix of `s` is a
/// suffix of `s`.
pub proof fn lemma_remainder_trans(r2: Seq<char>, r1: Seq<char>, s: Seq<char>)
    requires
        is_remainder_of(r2, r1),
        is_remainder_of(r1, s),
    ensures
        is_remainder_of(r2, s),
{
    assert(r2 =~= s.subrange(s.len() - r2.len(), s.len() as int));
}

/// Every value `s` is a remainder of itself (zero characters consumed).
pub proof fn lemma_remainder_refl(s: Seq<char>)
    ensures
        is_remainder_of(s, s),
{
    assert(s =~= s.subrange(0, s.len() as int));
}

/// The parsing capability: one operation, [`Parse::parse`], taking a
/// remaining-input view to either failure (`None`) or a parsed value and
/// the not-yet-consumed remainder.
///
/// Parsers are immutable values; parsing is pure. The behaviour of each
/// parser is pinned down by [`Parse::spec_parse`], and the executable
/// [`Parse::parse`] returns exactly what the specification says, for every
/// input.
pub trait Parse: Sized {
    /// The type of the parsed value.
    type Item: DeepView;

    /// What this parser returns, at the specification level: either `None`
    /// (no parse) or the parsed value and the remaining input.
    spec fn spec_parse(&self, s: Seq<char>) -> Option<
        (<Self::Item as DeepView>::V, Seq<char>),
    >;

    /// Consumption monotonicity: whenever parsing succeeds, the remainder
    /// is a suffix of the input — a parser never consumes more than is
    /// present and never fabricates input.
    proof fn lemma_parse_suffix(&self, s: Seq<char>)
        ensures
            self.spec_parse(s) matches Some((v, rest)) ==> is_remainder_of(rest, s),
    ;

    /// Run the parser against `input`. Returns exactly what
    /// [`Parse::spec_parse`] describes: failure carries no information and
    /// no partial consumption is ever observable.
    fn parse<'a>(&self, input: &'a str) -> (r: Option<(Self::Item, &'a str)>)
        ensures
            r is Some <==> self.spec_parse(input@) is Some,
            r matches Some((v, rest)) ==> self.spec_parse(input@) == Some(
                (v.deep_view(), rest@),
            ),
    ;

    /// Transform this parser's value with the pure `map_fn`.
    fn map<F>(self, map_fn: F) -> (r: Mapped<Self, F>)
        ensures
            r.parser == self,
            r.map_fn == map_fn,
    {
        Mapped::new(self, map_fn)
    }

    /// Sequence this parser with `next`, keeping the pair of both values.
    fn and<R>(self, next: R) -> (r: And<Self, R>)
        ensures
            r.parser == self,
            r.next == next,
    {
        And::new(self, next)
    }

    /// Validate or convert this parser's value with the fallible
    /// `and_then_fn`.
    fn and_then<F>(self, and_then_fn: F) -> (r: AndThen<Self, F>)
        ensures
            r.parser == self,
            r.and_then_fn == and_then_fn,
    {
        AndThen::new(self, and_then_fn)
    }

    /// Prefer this parser; fall back to `other` on the original input.
    fn or<R>(self, other: R) -> (r: Or<Self, R>)
        ensures
            r.parser == self,
            r.other == other,
    {
        Or::new(self, other)
    }

    /// Repeat this parser zero or more times.
    fn many(self) -> (r: Many<Self>)
        ensures
            r.parser == self,
    {
        Many::new(self)
    }

    /// Repeat this parser one or more times.
    fn many1(self) -> (r: Many1<Self>)
        ensures
            r.parser == self,
    {
        Many1::new(self)
    }

    /// Chain this parser into the parser that `bind_fn` constructs from
    /// its value.
    fn bind<F>(self, bind_fn: F) -> (r: Bind<Self, F>)
        ensures
            r.parser == self,
            r.bind_fn == bind_fn,
    {
        Bind::new(self, bind_fn)
    }

    /// Repeat this parser exactly `n` times.
    fn take(self, n: usize) -> (r: Take<Self>)
        ensures
            r.parser == self,
            r.n == n,
    {
        Take::new(self, n)
    }

    /// Sequence this parser with `next`, keeping only this parser's
    /// value.
    fn and_skip<R>(self, next: R) -> (r: AndSkip<Self, R>)
        ensures
            r.parser == self,
            r.next == next,
    {
        AndSkip::new(self, next)
    }

    /// Sequence this parser with `next`, keeping only `next`'s value.
    fn skip_and<R>(self, next: R) -> (r: SkipAnd<Self, R>)
        ensures
            r.parser == self,
            r.next == next,
    {
        SkipAnd::new(self, next)
    }
}

/// Wraps any parse-capable value as a standalone parser.
#[derive(Clone, Copy)]
pub struct Parser<P>(pub P);

impl<P: Parse> Parser<P> {
    /// Wrap `f`; the result parses exactly as `f` does.
    pub fn new(f: P) -> (r: Parser<P>)
        ensures
            r.0 == f,
    {
        Parser(f)
    }
}

impl<P: Parse> Parse for Parser<P> {
    type Item = P::Item;

    open spec fn spec_parse(&self, s: Seq<char>) -> Option<
        (<P::Item as DeepView>::V, Seq<char>),
    > {
        self.0.spec_parse(s)
    }

    proof fn lemma_parse_suffix(&self, s: Seq<char>) {
        self.0.lemma_parse_suffix(s);
    }

    fn parse<'a>(&self, input: &'a str) -> (r: Option<(Self::Item, &'a str)>) {
        self.0.parse(input)
    }
}

} // verus!
