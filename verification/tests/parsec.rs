use parsec::alphanum;
use parsec::any;
use parsec::ch;
use parsec::char;
use parsec::digit;
use parsec::integer;
use parsec::item;
use parsec::literal;
use parsec::lower;
use parsec::not;
use parsec::sat;
use parsec::satisfy;
use parsec::upper;
use parsec::whitespace;
use parsec::CodePoint;
use parsec::IntoInteger;
use parsec::IsDigit;
use parsec::IsNotChar;
use parsec::Parse;
use parsec::Parser;
use parsec::TakeDigitCount;

#[test]
fn char_matches_first_character() {
    assert_eq!(char('a').parse("abc"), Some(('a', "bc")));
}

#[test]
fn char_rejects_other_character() {
    assert_eq!(char('a').parse("xyz"), None);
}

#[test]
fn char_rejects_empty_input() {
    assert_eq!(char('a').parse(""), None);
}

#[test]
fn integer_negative_with_trailing_input() {
    assert_eq!(integer().parse("-42rest"), Some((-42, "rest")));
}

#[test]
fn many1_of_digit_needs_one_digit() {
    assert_eq!(digit().many1().parse("abc"), None);
}

#[test]
fn literal_pair_splits_input() {
    assert_eq!(
        literal("foo").and(literal("bar")).parse("foobarbaz"),
        Some((("foo", "bar"), "baz"))
    );
}

#[test]
fn take_needs_enough_input() {
    assert_eq!(any().take(3).parse("ab"), None);
}

#[test]
fn any_consumes_one_character() {
    assert_eq!(any().parse("xy"), Some(('x', "y")));
    assert_eq!(any().parse(""), None);
}

#[test]
fn item_consumes_one_character() {
    assert_eq!(item().parse("xy"), Some(('x', "y")));
    assert_eq!(item().parse(""), None);
}

#[test]
fn satisfy_consults_the_predicate() {
    assert_eq!(satisfy(IsDigit).parse("7a"), Some(('7', "a")));
    assert_eq!(satisfy(IsDigit).parse("a7"), None);
}

#[test]
fn sat_consults_the_predicate() {
    assert_eq!(sat(IsNotChar { expected: 'x' }).parse("ab"), Some(('a', "b")));
    assert_eq!(sat(IsNotChar { expected: 'a' }).parse("ab"), None);
}

#[test]
fn ch_matches_one_character() {
    assert_eq!(ch('-').parse("-5"), Some(('-', "5")));
    assert_eq!(ch('-').parse("5"), None);
}

#[test]
fn digit_matches_decimal_digits_only() {
    assert_eq!(digit().parse("0rest"), Some(('0', "rest")));
    assert_eq!(digit().parse("9"), Some(('9', "")));
    assert_eq!(digit().parse("/"), None);
    assert_eq!(digit().parse(":"), None);
}

#[test]
fn not_rejects_the_named_character() {
    assert_eq!(not('x').parse("yz"), Some(('y', "z")));
    assert_eq!(not('x').parse("xz"), None);
}

#[test]
fn whitespace_matches_blank_characters() {
    assert_eq!(whitespace().parse(" x"), Some((' ', "x")));
    assert_eq!(whitespace().parse("\tx"), Some(('\t', "x")));
    assert_eq!(whitespace().parse("x "), None);
}

#[test]
fn lower_matches_lowercase_only() {
    assert_eq!(lower().parse("ab"), Some(('a', "b")));
    assert_eq!(lower().parse("Ab"), None);
    assert_eq!(lower().parse("1"), None);
}

#[test]
fn upper_matches_uppercase_only() {
    assert_eq!(upper().parse("Ab"), Some(('A', "b")));
    assert_eq!(upper().parse("ab"), None);
    assert_eq!(upper().parse("1"), None);
}

#[test]
fn alphanum_matches_digits_and_letters() {
    assert_eq!(alphanum().parse("a!"), Some(('a', "!")));
    assert_eq!(alphanum().parse("Z!"), Some(('Z', "!")));
    assert_eq!(alphanum().parse("5!"), Some(('5', "!")));
    assert_eq!(alphanum().parse("!a"), None);
    assert_eq!(alphanum().parse(" a"), None);
}

#[test]
fn literal_consumes_exact_prefix() {
    assert_eq!(literal("foo").parse("foobar"), Some(("foo", "bar")));
    assert_eq!(literal("foo").parse("fobar"), None);
    assert_eq!(literal("foo").parse("fo"), None);
    assert_eq!(literal("").parse("abc"), Some(("", "abc")));
}

#[test]
fn or_is_left_biased() {
    assert_eq!(literal("ab").or(literal("a")).parse("abc"), Some(("ab", "c")));
}

#[test]
fn or_falls_back_on_original_input() {
    assert_eq!(char('x').or(char('a')).parse("abc"), Some(('a', "bc")));
    assert_eq!(
        literal("ax").or(literal("ab")).parse("abc"),
        Some(("ab", "c"))
    );
    assert_eq!(char('x').or(char('y')).parse("abc"), None);
}

#[test]
fn many_collects_until_first_failure() {
    assert_eq!(
        digit().many().parse("12ab"),
        Some((vec!['1', '2'], "ab"))
    );
}

#[test]
fn many_succeeds_with_no_match() {
    assert_eq!(char('z').many().parse("abc"), Some((vec![], "abc")));
    assert_eq!(char('z').many().parse(""), Some((vec![], "")));
}

#[test]
fn many_stops_after_one_empty_match() {
    assert_eq!(
        literal("").many().parse("abc"),
        Some((vec![""], "abc"))
    );
}

#[test]
fn many1_collects_at_least_one() {
    assert_eq!(digit().many1().parse("7"), Some((vec!['7'], "")));
    assert_eq!(
        digit().many1().parse("12ab"),
        Some((vec!['1', '2'], "ab"))
    );
}

#[test]
fn take_collects_exactly_n() {
    assert_eq!(any().take(2).parse("ab"), Some((vec!['a', 'b'], "")));
    assert_eq!(
        digit().take(2).parse("123"),
        Some((vec!['1', '2'], "3"))
    );
    assert_eq!(digit().take(3).parse("12a"), None);
}

#[test]
fn take_zero_is_an_error() {
    assert_eq!(any().take(0).parse("abc"), None);
    assert_eq!(any().take(0).parse(""), None);
}

#[test]
fn map_transforms_the_value_only() {
    assert_eq!(any().map(CodePoint).parse("A1"), Some((65, "1")));
    assert_eq!(any().map(CodePoint).parse(""), None);
}

#[test]
fn and_skip_keeps_the_first_value() {
    assert_eq!(
        digit().and_skip(char(';')).parse("5;x"),
        Some(('5', "x"))
    );
    assert_eq!(digit().and_skip(char(';')).parse("5x"), None);
}

#[test]
fn skip_and_keeps_the_second_value() {
    assert_eq!(
        char('-').skip_and(digit()).parse("-5x"),
        Some(('5', "x"))
    );
    assert_eq!(char('-').skip_and(digit()).parse("5x"), None);
}

#[test]
fn and_then_converts_digits() {
    assert_eq!(
        digit()
            .many1()
            .and_then(IntoInteger { negative: false })
            .parse("12x"),
        Some((12, "x"))
    );
}

#[test]
fn bind_reads_a_length_then_that_many_characters() {
    let p = digit().bind(TakeDigitCount);
    assert_eq!(p.parse("3abcd"), Some((vec!['a', 'b', 'c'], "d")));
    assert_eq!(p.parse("3ab"), None);
    assert_eq!(p.parse("0ab"), None);
}

#[test]
fn integer_positive() {
    assert_eq!(integer().parse("42"), Some((42, "")));
    assert_eq!(integer().parse("007x"), Some((7, "x")));
    assert_eq!(integer().parse("0"), Some((0, "")));
}

#[test]
fn integer_requires_a_digit() {
    assert_eq!(integer().parse("-"), None);
    assert_eq!(integer().parse("--5"), None);
    assert_eq!(integer().parse("x5"), None);
    assert_eq!(integer().parse(""), None);
}

#[test]
fn integer_bounds_are_exact() {
    assert_eq!(integer().parse("2147483647"), Some((i32::MAX, "")));
    assert_eq!(integer().parse("2147483648"), None);
    assert_eq!(integer().parse("-2147483648x"), Some((i32::MIN, "x")));
    assert_eq!(integer().parse("-2147483649"), None);
    assert_eq!(integer().parse("9999999999999999999999"), None);
}

#[test]
fn parser_wraps_a_parser() {
    assert_eq!(Parser::new(char('a')).parse("ab"), Some(('a', "b")));
    assert_eq!(Parser::new(char('a')).parse("ba"), None);
}

#[test]
fn remainder_is_a_suffix_of_the_input() {
    let input = "12ab";
    let (_, rest) = digit().many().parse(input).unwrap();
    assert!(input.ends_with(rest));
    assert!(rest.len() <= input.len());
}

// A nesting depth counter: nested = '(' nested ')' | '0'. Written as a
// named recursive function rather than a pre-built value, so that
// construction never recurses unboundedly.
fn nested(input: &str) -> Option<(i32, &str)> {
    match char('(').parse(input) {
        Some((_, rest)) => {
            let (depth, rest) = nested(rest)?;
            let (_, rest) = char(')').parse(rest)?;
            Some((depth + 1, rest))
        }
        None => char('0').parse(input).map(|(_, rest)| (0, rest)),
    }
}

#[test]
fn recursive_grammar_through_a_named_function() {
    assert_eq!(nested("((0))"), Some((2, "")));
    assert_eq!(nested("((0)"), None);
    assert_eq!(nested("0tail"), Some((0, "tail")));
}
