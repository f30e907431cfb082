//! Repetition combinators: zero-or-more, one-or-more and exactly-n
//! applications of a parser against successive remainders.

use crate::is_remainder_of;
use crate::lemma_remainder_refl;
use crate::lemma_remainder_trans;
use crate::Parse;
use vstd::prelude::*;

verus! {

/// What repeated application of `p` against successive remainders of `s`
/// collects: the ordered values and the final remainder. Collection stops
/// at the first failure. A success that consumes nothing keeps its value
/// and then stops the repetition: this no-progress guard turns what would
/// otherwise loop forever into termination, and is the one deliberate
/// refinement of the repetition combinators here.
pub open spec fn many_rec<P: Parse>(p: P, s: Seq<char>) -> (Seq<
    <P::Item as DeepView>::V,
>, Seq<char>)
    decreases s.len(),
{
    match p.spec_parse(s) {
        Some((v, rest)) => {
            if rest.len() < s.len() {
                let tail = many_rec(p, rest);
                (seq![v] + tail.0, tail.1)
            } else {
                (seq![v], rest)
            }
        },
        None => (Seq::empty(), s),
    }
}

/// The final remainder of repeated application is a suffix of the input.
pub proof fn lemma_many_rec_suffix<P: Parse>(p: P, s: Seq<char>)
    ensures
        is_remainder_of(many_rec(p, s).1, s),
    decreases s.len(),
{
    p.lemma_parse_suffix(s);
    match p.spec_parse(s) {
        Some((v, rest)) => {
            if rest.len() < s.len() {
                lemma_many_rec_suffix(p, rest);
                lemma_remainder_trans(many_rec(p, rest).1, rest, s);
            }
        },
        None => {
            lemma_remainder_refl(s);
        },
    }
}

/// Runs `parser` repeatedly against successive remainders, collecting the
/// values in order and stopping at the first failure. Always succeeds,
/// with a possibly-empty sequence of values.
#[derive(Clone, Copy)]
pub struct Many<P> {
    pub parser: P,
}

impl<P> Many<P> {
    /// Repeat `parser` zero or more times.
    pub fn new(parser: P) -> (r: Self)
        ensures
            r.parser == parser,
    {
        Self { parser }
    }
}

impl<P: Parse> Parse for Many<P> {
    type Item = Vec<P::Item>;

    open spec fn spec_parse(&self, s: Seq<char>) -> Option<
        (Seq<<P::Item as DeepView>::V>, Seq<char>),
    > {
        Some(many_rec(self.parser, s))
    }

    proof fn lemma_parse_suffix(&self, s: Seq<char>) {
        lemma_many_rec_suffix(self.parser, s);
    }

    fn parse<'a>(&self, input: &'a str) -> (r: Option<(Self::Item, &'a str)>) {
        let mut results: Vec<P::Item> = Vec::new();
        let mut cur: &'a str = input;
        proof {
            assert(results.deep_view() + many_rec(self.parser, cur@).0 =~= many_rec(
                self.parser,
                cur@,
            ).0);
        }
        loop
            invariant_except_break
                many_rec(self.parser, input@).0 == results.deep_view() + many_rec(
                    self.parser,
                    cur@,
                ).0,
                many_rec(self.parser, input@).1 == many_rec(self.parser, cur@).1,
            ensures
                many_rec(self.parser, input@).0 == results.deep_view(),
                many_rec(self.parser, input@).1 == cur@,
            decreases cur@.len(),
        {
            let ghost pre_results = results.deep_view();
            let ghost pre_cur = cur@;
            match self.parser.parse(cur) {
                None => {
                    proof {
                        assert(pre_results + many_rec(self.parser, pre_cur).0
                            =~= pre_results);
                    }
                    break ;
                },
                Some((v, rest)) => {
                    let progressed = rest.unicode_len() < cur.unicode_len();
                    results.push(v);
                    cur = rest;
                    proof {
                        assert(results.deep_view() =~= pre_results.push(v.deep_view()));
                        if progressed {
                            assert(pre_results + many_rec(self.parser, pre_cur).0
                                =~= results.deep_view() + many_rec(self.parser, cur@).0);
                        } else {
                            assert(pre_results + many_rec(self.parser, pre_cur).0
                                =~= results.deep_view());
                        }
                    }
                    if !progressed {
                        break ;
                    }
                },
            }
        }
        Some((results, cur))
    }
}

/// The zero-or-more repetition is total: it succeeds on every input, even
/// when its parser never matches (an empty sequence, with the input left
/// untouched).
pub proof fn lemma_many_total<P: Parse>(m: Many<P>, s: Seq<char>)
    ensures
        m.spec_parse(s) is Some,
{
}

/// Runs `parser` repeatedly like [`Many`], but fails when zero
/// repetitions were matched.
#[derive(Clone, Copy)]
pub struct Many1<P> {
    pub parser: P,
}

impl<P> Many1<P> {
    /// Repeat `parser` one or more times.
    pub fn new(parser: P) -> (r: Self)
        ensures
            r.parser == parser,
    {
        Self { parser }
    }
}

impl<P: Parse> Parse for Many1<P> {
    type Item = Vec<P::Item>;

    open spec fn spec_parse(&self, s: Seq<char>) -> Option<
        (Seq<<P::Item as DeepView>::V>, Seq<char>),
    > {
        if self.parser.spec_parse(s) is None {
            None
        } else {
            Some(many_rec(self.parser, s))
        }
    }

    proof fn lemma_parse_suffix(&self, s: Seq<char>) {
        lemma_many_rec_suffix(self.parser, s);
    }

    fn parse<'a>(&self, input: &'a str) -> (r: Option<(Self::Item, &'a str)>) {
        let mut results: Vec<P::Item> = Vec::new();
        let mut cur: &'a str = input;
        proof {
            assert(results.deep_view() + many_rec(self.parser, cur@).0 =~= many_rec(
                self.parser,
                cur@,
            ).0);
        }
        loop
            invariant_except_break
                many_rec(self.parser, input@).0 == results.deep_view() + many_rec(
                    self.parser,
                    cur@,
                ).0,
                many_rec(self.parser, input@).1 == many_rec(self.parser, cur@).1,
            ensures
                many_rec(self.parser, input@).0 == results.deep_view(),
                many_rec(self.parser, input@).1 == cur@,
            decreases cur@.len(),
        {
            let ghost pre_results = results.deep_view();
            let ghost pre_cur = cur@;
            match self.parser.parse(cur) {
                None => {
                    proof {
                        assert(pre_results + many_rec(self.parser, pre_cur).0
                            =~= pre_results);
                    }
                    break ;
                },
                Some((v, rest)) => {
                    let progressed = rest.unicode_len() < cur.unicode_len();
                    results.push(v);
                    cur = rest;
                    proof {
                        assert(results.deep_view() =~= pre_results.push(v.deep_view()));
                        if progressed {
                            assert(pre_results + many_rec(self.parser, pre_cur).0
                                =~= results.deep_view() + many_rec(self.parser, cur@).0);
                        } else {
                            assert(pre_results + many_rec(self.parser, pre_cur).0
                                =~= results.deep_view());
                        }
                    }
                    if !progressed {
                        break ;
                    }
                },
            }
        }
        if results.len() > 0 {
            Some((results, cur))
        } else {
            None
        }
    }
}

/// One-or-more repetition is minimal in what it asks: it fails exactly
/// when a single application of its parser fails.
pub proof fn lemma_many1_minimality<P: Parse>(m: Many1<P>, s: Seq<char>)
    ensures
        m.spec_parse(s) is None <==> m.parser.spec_parse(s) is None,
{
}

/// What applying `p` exactly `n` times against successive remainders of
/// `s` yields: the `n` collected values and the final remainder, or
/// failure as soon as one application fails.
pub open spec fn take_rec<P: Parse>(p: P, s: Seq<char>, n: nat) -> Option<
    (Seq<<P::Item as DeepView>::V>, Seq<char>),
>
    decreases n,
{
    if n == 0 {
        Some((Seq::empty(), s))
    } else {
        match p.spec_parse(s) {
            Some((v, rest)) => match take_rec(p, rest, (n - 1) as nat) {
                Some((vs, rest2)) => Some((seq![v] + vs, rest2)),
                None => None,
            },
            None => None,
        }
    }
}

/// When applying `p` exactly `n` times succeeds, the final remainder is a
/// suffix of the input.
pub proof fn lemma_take_rec_suffix<P: Parse>(p: P, s: Seq<char>, n: nat)
    ensures
        take_rec(p, s, n) matches Some((vs, rest)) ==> is_remainder_of(rest, s),
    decreases n,
{
    if n == 0 {
        lemma_remainder_refl(s);
    } else {
        p.lemma_parse_suffix(s);
        if let Some((v, rest)) = p.spec_parse(s) {
            lemma_take_rec_suffix(p, rest, (n - 1) as nat);
            if let Some((vs, rest2)) = take_rec(p, rest, (n - 1) as nat) {
                lemma_remainder_trans(rest2, rest, s);
            }
        }
    }
}

/// Whether `p` can be applied successfully `n` consecutive times starting
/// at `s`.
pub open spec fn can_apply<P: Parse>(p: P, s: Seq<char>, n: nat) -> bool
    decreases n,
{
    if n == 0 {
        true
    } else {
        match p.spec_parse(s) {
            Some((v, rest)) => can_apply(p, rest, (n - 1) as nat),
            None => false,
        }
    }
}

/// Runs `parser` exactly `n` times, collecting the values in order. Fails
/// — rather than returning a short sequence — if fewer than `n`
/// applications succeed, and fails immediately if `n` is zero: "take
/// zero" is defined as an error, not an always-succeeding empty match.
#[derive(Clone, Copy)]
pub struct Take<P> {
    pub parser: P,
    pub n: usize,
}

impl<P> Take<P> {
    /// Repeat `parser` exactly `n` times.
    pub fn new(parser: P, n: usize) -> (r: Self)
        ensures
            r.parser == parser,
            r.n == n,
    {
        Self { parser, n }
    }
}

impl<P: Parse> Parse for Take<P> {
    type Item = Vec<P::Item>;

    open spec fn spec_parse(&self, s: Seq<char>) -> Option<
        (Seq<<P::Item as DeepView>::V>, Seq<char>),
    > {
        if self.n == 0 {
            None
        } else {
            take_rec(self.parser, s, self.n as nat)
        }
    }

    proof fn lemma_parse_suffix(&self, s: Seq<char>) {
        if self.n > 0 {
            lemma_take_rec_suffix(self.parser, s, self.n as nat);
        }
    }

    fn parse<'a>(&self, input: &'a str) -> (r: Option<(Self::Item, &'a str)>) {
        if self.n == 0 {
            return None;
        }
        let mut results: Vec<P::Item> = Vec::new();
        let mut cur: &'a str = input;
        let mut i: usize = 0;
        proof {
            assert(results.deep_view() =~= Seq::<<P::Item as DeepView>::V>::empty());
        }
        while i < self.n
            invariant
                i <= self.n,
                match take_rec(self.parser, cur@, (self.n - i) as nat) {
                    Some((vs, rest)) => take_rec(self.parser, input@, self.n as nat)
                        == Some((results.deep_view() + vs, rest)),
                    None => take_rec(self.parser, input@, self.n as nat) is None,
                },
            decreases self.n - i,
        {
            let ghost pre_results = results.deep_view();
            let ghost pre_cur = cur@;
            let ghost left = (self.n - i) as nat;
            match self.parser.parse(cur) {
                None => {
                    return None;
                },
                Some((v, rest)) => {
                    results.push(v);
                    cur = rest;
                    i = i + 1;
                    proof {
                        assert(results.deep_view() =~= pre_results.push(v.deep_view()));
                        if let Some((vs, rest2)) = take_rec(
                            self.parser,
                            cur@,
                            (self.n - i) as nat,
                        ) {
                            assert(pre_results + (seq![v.deep_view()] + vs)
                                =~= results.deep_view() + vs);
                        }
                    }
                },
            }
        }
        proof {
            assert(results.deep_view() + Seq::<<P::Item as DeepView>::V>::empty()
                =~= results.deep_view());
        }
        Some((results, cur))
    }
}

/// Exactly-n repetition is exact: it succeeds precisely when `n` is
/// positive and its parser can be applied successfully `n` consecutive
/// times; a run of fewer than `n` successes yields failure, not a short
/// sequence.
pub proof fn lemma_take_exactness<P: Parse>(t: Take<P>, s: Seq<char>)
    ensures
        t.spec_parse(s) is Some <==> (t.n > 0 && can_apply(t.parser, s, t.n as nat)),
{
    lemma_take_rec_can_apply(t.parser, s, t.n as nat);
}

/// Applying a parser exactly `n` times succeeds precisely when it can be
/// applied successfully `n` consecutive times.
pub proof fn lemma_take_rec_can_apply<P: Parse>(p: P, s: Seq<char>, n: nat)
    ensures
        take_rec(p, s, n) is Some <==> can_apply(p, s, n),
    decreases n,
{
    if n > 0 {
        if let Some((v, rest)) = p.spec_parse(s) {
            lemma_take_rec_can_apply(p, rest, (n - 1) as nat);
        }
    }
}

} // verus!
