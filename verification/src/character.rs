//! Character-level primitive parsers: single-character consumption and
//! predicate-based matching, with the named character classes.

use crate::Parse;
use vstd::prelude::*;

verus! {

/// A character predicate: the specification-level test
/// [`CharPred::spec_test`] says which characters are accepted, and the
/// executable [`CharPred::test`] answers exactly that.
pub trait CharPred: Sized {
    /// Which characters this predicate accepts.
    spec fn spec_test(&self, c: char) -> bool;

    /// Decide whether `c` is accepted.
    fn test(&self, c: char) -> (b: bool)
        ensures
            b == self.spec_test(c),
    ;
}

/// Consumes exactly one character if the input is non-empty; fails on
/// empty input.
#[derive(Clone, Copy)]
pub struct Any;

impl Parse for Any {
    type Item = char;

    open spec fn spec_parse(&self, s: Seq<char>) -> Option<(char, Seq<char>)> {
        if s.len() == 0 {
            None
        } else {
            Some((s[0], s.subrange(1, s.len() as int)))
        }
    }

    proof fn lemma_parse_suffix(&self, s: Seq<char>) {
    }

    fn parse<'a>(&self, input: &'a str) -> (r: Option<(char, &'a str)>) {
        let n = input.unicode_len();
        if n == 0 {
            None
        } else {
            let first = input.get_char(0);
            let rest = input.substring_char(1, n);
            Some((first, rest))
        }
    }
}

/// Consumes one character iff the predicate accepts it; otherwise fails
/// without consuming.
#[derive(Clone, Copy)]
pub struct Satisfy<P> {
    pub predicate: P,
}

impl<P: CharPred> Parse for Satisfy<P> {
    type Item = char;

    open spec fn spec_parse(&self, s: Seq<char>) -> Option<(char, Seq<char>)> {
        if s.len() > 0 && self.predicate.spec_test(s[0]) {
            Some((s[0], s.subrange(1, s.len() as int)))
        } else {
            None
        }
    }

    proof fn lemma_parse_suffix(&self, s: Seq<char>) {
    }

    fn parse<'a>(&self, input: &'a str) -> (r: Option<(char, &'a str)>) {
        let n = input.unicode_len();
        if n == 0 {
            return None;
        }
        let first = input.get_char(0);
        if self.predicate.test(first) {
            let rest = input.substring_char(1, n);
            Some((first, rest))
        } else {
            None
        }
    }
}

/// Accepts exactly one expected character.
#[derive(Clone, Copy)]
pub struct IsChar {
    pub expected: char,
}

impl CharPred for IsChar {
    open spec fn spec_test(&self, c: char) -> bool {
        c == self.expected
    }

    fn test(&self, c: char) -> (b: bool) {
        c == self.expected
    }
}

/// Accepts every character but the expected one.
#[derive(Clone, Copy)]
pub struct IsNotChar {
    pub expected: char,
}

impl CharPred for IsNotChar {
    open spec fn spec_test(&self, c: char) -> bool {
        c != self.expected
    }

    fn test(&self, c: char) -> (b: bool) {
        c != self.expected
    }
}

/// Accepts the decimal digits `'0'` through `'9'`.
#[derive(Clone, Copy)]
pub struct IsDigit;

impl CharPred for IsDigit {
    open spec fn spec_test(&self, c: char) -> bool {
        48 <= c as u32 <= 57
    }

    fn test(&self, c: char) -> (b: bool) {
        let code = c as u32;
        48 <= code && code <= 57
    }
}

/// Whether `c` has the Unicode White_Space property, as
/// `char::is_whitespace` decides it; the result depends on the character
/// alone.
pub uninterp spec fn whitespace_of(c: char) -> bool;

/// Relies on char::is_whitespace: whether `c` has the Unicode White_Space
/// property, a function of the character alone.
#[verifier::external_body]
fn char_is_whitespace(c: char) -> (b: bool)
    ensures
        b == whitespace_of(c),
{
    c.is_whitespace()
}

/// Whether `c` has the Unicode Lowercase property, as
/// `char::is_lowercase` decides it; the result depends on the character
/// alone.
pub uninterp spec fn lowercase_of(c: char) -> bool;

/// Relies on char::is_lowercase: whether `c` has the Unicode Lowercase
/// property, a function of the character alone.
#[verifier::external_body]
fn char_is_lowercase(c: char) -> (b: bool)
    ensures
        b == lowercase_of(c),
{
    c.is_lowercase()
}

/// Whether `c` has the Unicode Uppercase property, as
/// `char::is_uppercase` decides it; the result depends on the character
/// alone.
pub uninterp spec fn uppercase_of(c: char) -> bool;

/// Relies on char::is_uppercase: whether `c` has the Unicode Uppercase
/// property, a function of the character alone.
#[verifier::external_body]
fn char_is_uppercase(c: char) -> (b: bool)
    ensures
        b == uppercase_of(c),
{
    c.is_uppercase()
}

/// Accepts whitespace characters.
#[derive(Clone, Copy)]
pub struct IsWhitespace;

impl CharPred for IsWhitespace {
    open spec fn spec_test(&self, c: char) -> bool {
        whitespace_of(c)
    }

    fn test(&self, c: char) -> (b: bool) {
        char_is_whitespace(c)
    }
}

/// Accepts lowercase characters.
#[derive(Clone, Copy)]
pub struct IsLower;

impl CharPred for IsLower {
    open spec fn spec_test(&self, c: char) -> bool {
        lowercase_of(c)
    }

    fn test(&self, c: char) -> (b: bool) {
        char_is_lowercase(c)
    }
}

/// Accepts uppercase characters.
#[derive(Clone, Copy)]
pub struct IsUpper;

impl CharPred for IsUpper {
    open spec fn spec_test(&self, c: char) -> bool {
        uppercase_of(c)
    }

    fn test(&self, c: char) -> (b: bool) {
        char_is_uppercase(c)
    }
}

/// Accepts decimal digits, lowercase characters and uppercase characters.
#[derive(Clone, Copy)]
pub struct IsAlphanumeric;

impl CharPred for IsAlphanumeric {
    open spec fn spec_test(&self, c: char) -> bool {
        (48 <= c as u32 <= 57) || lowercase_of(c) || uppercase_of(c)
    }

    fn test(&self, c: char) -> (b: bool) {
        let code = c as u32;
        (48 <= code && code <= 57) || char_is_lowercase(c) || char_is_uppercase(c)
    }
}

/// Consumes exactly one character; fails on empty input.
pub fn any() -> (r: Any)
    ensures
        r == (Any {  }),
{
    Any {  }
}

/// Consumes one character iff `predicate` accepts it.
pub fn satisfy<P: CharPred>(predicate: P) -> (r: Satisfy<P>)
    ensures
        r.predicate == predicate,
{
    Satisfy { predicate }
}

/// Matches the one character `expected`.
pub fn char(expected: char) -> (r: Satisfy<IsChar>)
    ensures
        r.predicate.expected == expected,
{
    Satisfy { predicate: IsChar { expected } }
}

/// Matches one decimal digit.
pub fn digit() -> (r: Satisfy<IsDigit>)
    ensures
        r.predicate == (IsDigit {  }),
{
    Satisfy { predicate: IsDigit {  } }
}

/// Matches any character except `expected`.
pub fn not(expected: char) -> (r: Satisfy<IsNotChar>)
    ensures
        r.predicate.expected == expected,
{
    Satisfy { predicate: IsNotChar { expected } }
}

/// Matches one whitespace character.
pub fn whitespace() -> (r: Satisfy<IsWhitespace>)
    ensures
        r.predicate == (IsWhitespace {  }),
{
    Satisfy { predicate: IsWhitespace {  } }
}

/// Matches one lowercase character.
pub fn lower() -> (r: Satisfy<IsLower>)
    ensures
        r.predicate == (IsLower {  }),
{
    Satisfy { predicate: IsLower {  } }
}

/// Matches one uppercase character.
pub fn upper() -> (r: Satisfy<IsUpper>)
    ensures
        r.predicate == (IsUpper {  }),
{
    Satisfy { predicate: IsUpper {  } }
}

/// Matches one decimal digit, lowercase character or uppercase character.
pub fn alphanum() -> (r: Satisfy<IsAlphanumeric>)
    ensures
        r.predicate == (IsAlphanumeric {  }),
{
    Satisfy { predicate: IsAlphanumeric {  } }
}

} // verus!
