//! Numeric primitive parser: a signed decimal integer, with overflow as
//! parse failure.

use crate::branch::Or;
use crate::character::IsChar;
use crate::character::IsDigit;
use crate::character::Satisfy;
use crate::multi::many_rec;
use crate::multi::Many1;
use crate::sequence::SkipAnd;
use crate::transform::AndThen;
use crate::transform::TryMapFn;
use crate::Parse;
use vstd::prelude::*;

verus! {

/// Whether `c` is a decimal digit, `'0'` through `'9'`.
pub open spec fn is_digit_char(c: char) -> bool {
    48 <= c as u32 <= 57
}

/// The numeric value of the decimal digit `c`.
pub open spec fn digit_value(c: char) -> int {
    c as u32 - 48
}

/// Whether every character of `s` is a decimal digit.
pub open spec fn all_digits(s: Seq<char>) -> bool {
    forall|i: int| 0 <= i < s.len() ==> is_digit_char(#[trigger] s[i])
}

/// The value of the digit run `s` read as a decimal numeral.
pub open spec fn digits_value(s: Seq<char>) -> int
    decreases s.len(),
{
    if s.len() == 0 {
        0
    } else {
        10 * digits_value(s.drop_last()) + digit_value(s.last())
    }
}

/// A decimal numeral has a non-negative value.
pub proof fn lemma_digits_value_nonneg(s: Seq<char>)
    requires
        all_digits(s),
    ensures
        digits_value(s) >= 0,
    decreases s.len(),
{
    if s.len() > 0 {
        assert(all_digits(s.drop_last())) by {
            assert(forall|i: int|
                0 <= i < s.len() - 1 ==> s.drop_last()[i] == #[trigger] s[i]);
        }
        lemma_digits_value_nonneg(s.drop_last());
    }
}

/// Extending a digit run to the right never lowers its value: the value
/// of a prefix is at most the value of the whole run.
pub proof fn lemma_digits_value_mono(s: Seq<char>, k: int)
    requires
        all_digits(s),
        0 <= k <= s.len(),
    ensures
        digits_value(s.take(k)) <= digits_value(s),
    decreases s.len() - k,
{
    if k < s.len() {
        lemma_digits_value_mono(s, k + 1);
        assert(s.take(k + 1).drop_last() =~= s.take(k));
        assert(s.take(k + 1).last() == s[k]);
        assert(all_digits(s.take(k))) by {
            assert(forall|i: int| 0 <= i < k ==> s.take(k)[i] == #[trigger] s[i]);
        }
        lemma_digits_value_nonneg(s.take(k));
    } else {
        assert(s.take(k) =~= s);
    }
}

/// What the digit run `s` yields as a magnitude bounded by `limit`:
/// failure unless `s` is a non-empty run of decimal digits whose value is
/// at most `limit`.
pub open spec fn spec_magnitude(s: Seq<char>, limit: u32) -> Option<u32> {
    if s.len() > 0 && all_digits(s) && digits_value(s) <= limit {
        Some(digits_value(s) as u32)
    } else {
        None
    }
}

/// Read the digit run as a decimal numeral, failing on any non-digit, on
/// an empty run, and on a value above `limit`.
fn digits_magnitude(digits: &Vec<char>, limit: u32) -> (r: Option<u32>)
    ensures
        r == spec_magnitude(digits@, limit),
{
    let ghost s = digits@;
    if digits.len() == 0 {
        return None;
    }
    let mut acc: u64 = 0;
    let mut i: usize = 0;
    while i < digits.len()
        invariant
            i <= s.len(),
            s == digits@,
            all_digits(s.take(i as int)),
            acc == digits_value(s.take(i as int)),
            acc <= limit,
        decreases s.len() - i,
    {
        let c = digits[i];
        let code = c as u32;
        if code < 48 || code > 57 {
            return None;
        }
        let d = (code - 48) as u64;
        proof {
            assert(s.take(i + 1).drop_last() =~= s.take(i as int));
            assert(s.take(i + 1).last() == s[i as int]);
            assert(all_digits(s.take(i + 1))) by {
                assert(forall|j: int|
                    0 <= j < i + 1 ==> s.take(i + 1)[j] == #[trigger] s[j]);
            }
        }
        let new_acc = acc * 10 + d;
        if new_acc > limit as u64 {
            proof {
                if all_digits(s) {
                    lemma_digits_value_mono(s, i + 1);
                }
            }
            return None;
        }
        acc = new_acc;
        i = i + 1;
    }
    proof {
        assert(s.take(s.len() as int) =~= s);
    }
    Some(acc as u32)
}

/// What a run of decimal digits yields as a positive `i32`: failure
/// unless the run is non-empty, all digits, and its value fits.
pub open spec fn spec_positive_integer(s: Seq<char>) -> Option<i32> {
    if s.len() > 0 && all_digits(s) && digits_value(s) <= i32::MAX {
        Some(digits_value(s) as i32)
    } else {
        None
    }
}

/// What a run of decimal digits yields as a negated `i32`: failure unless
/// the run is non-empty, all digits, and its negated value fits.
pub open spec fn spec_negative_integer(s: Seq<char>) -> Option<i32> {
    if s.len() > 0 && all_digits(s) && digits_value(s) <= 0x8000_0000 {
        Some((-digits_value(s)) as i32)
    } else {
        None
    }
}

/// Converts a run of digit characters into a signed integer value,
/// negating it when `negative` holds. A run whose value overflows the
/// representable range is rejected, not wrapped, saturated or panicked
/// on.
#[derive(Clone, Copy)]
pub struct IntoInteger {
    pub negative: bool,
}

impl TryMapFn<Vec<char>> for IntoInteger {
    type Output = i32;

    open spec fn spec_call(&self, digits: Seq<char>) -> Option<i32> {
        if self.negative {
            spec_negative_integer(digits)
        } else {
            spec_positive_integer(digits)
        }
    }

    fn call(&self, digits: Vec<char>) -> (r: Option<i32>) {
        proof {
            assert(digits.deep_view() =~= digits@);
        }
        if self.negative {
            match digits_magnitude(&digits, 0x8000_0000u32) {
                Some(magnitude) => {
                    proof {
                        lemma_digits_value_nonneg(digits@);
                    }
                    if magnitude == 0x8000_0000u32 {
                        Some(i32::MIN)
                    } else {
                        Some(-(magnitude as i32))
                    }
                },
                None => None,
            }
        } else {
            match digits_magnitude(&digits, 0x7FFF_FFFFu32) {
                Some(magnitude) => {
                    proof {
                        lemma_digits_value_nonneg(digits@);
                    }
                    Some(magnitude as i32)
                },
                None => None,
            }
        }
    }
}

/// The shape of the signed-integer parser: an optional leading `'-'`
/// followed by one-or-more digits, converted with overflow checked.
pub type IntegerParser = Or<
    AndThen<SkipAnd<Satisfy<IsChar>, Many1<Satisfy<IsDigit>>>, IntoInteger>,
    AndThen<Many1<Satisfy<IsDigit>>, IntoInteger>,
>;

/// The one value of [`IntegerParser`] that [`integer`] returns: the
/// negative-numeral branch first, the plain-numeral branch as fallback.
pub open spec fn spec_integer_parser() -> IntegerParser {
    Or {
        parser: AndThen {
            parser: SkipAnd {
                parser: Satisfy { predicate: IsChar { expected: '-' } },
                next: Many1 { parser: Satisfy { predicate: IsDigit } },
            },
            and_then_fn: IntoInteger { negative: true },
        },
        other: AndThen {
            parser: Many1 { parser: Satisfy { predicate: IsDigit } },
            and_then_fn: IntoInteger { negative: false },
        },
    }
}

/// The length of the longest all-digit prefix of `s`.
pub open spec fn digit_run_len(s: Seq<char>) -> int
    decreases s.len(),
{
    if s.len() > 0 && is_digit_char(s[0]) {
        1 + digit_run_len(s.skip(1))
    } else {
        0
    }
}

/// The digit run of `s` is a prefix of `s` made of digits only, and it is
/// the longest such prefix: the character after it, if any, is no digit.
pub proof fn lemma_digit_run(s: Seq<char>)
    ensures
        0 <= digit_run_len(s) <= s.len(),
        forall|i: int| 0 <= i < digit_run_len(s) ==> is_digit_char(#[trigger] s[i]),
        digit_run_len(s) < s.len() ==> !is_digit_char(s[digit_run_len(s)]),
    decreases s.len(),
{
    if s.len() > 0 && is_digit_char(s[0]) {
        lemma_digit_run(s.skip(1));
        assert forall|i: int| 0 <= i < digit_run_len(s) implies is_digit_char(
            #[trigger] s[i],
        ) by {
            if i > 0 {
                assert(s.skip(1)[i - 1] == s[i]);
            }
        }
        if digit_run_len(s) < s.len() {
            assert(s.skip(1)[digit_run_len(s) - 1] == s[digit_run_len(s)]);
        }
    }
}

/// Repeating the single-digit parser collects exactly the digit run of
/// the input and leaves exactly what follows it.
pub proof fn lemma_many_rec_digit_run(s: Seq<char>)
    ensures
        many_rec(Satisfy { predicate: IsDigit }, s) == (
            s.take(digit_run_len(s)),
            s.skip(digit_run_len(s)),
        ),
    decreases s.len(),
{
    if s.len() > 0 && is_digit_char(s[0]) {
        let rest = s.subrange(1, s.len() as int);
        assert(rest =~= s.skip(1));
        lemma_many_rec_digit_run(s.skip(1));
        let tail_len = digit_run_len(s.skip(1));
        lemma_digit_run(s.skip(1));
        assert(seq![s[0]] + s.skip(1).take(tail_len) =~= s.take(1 + tail_len));
        assert(s.skip(1).skip(tail_len) =~= s.skip(1 + tail_len));
    } else {
        assert(s.take(0) =~= Seq::<char>::empty());
        assert(s.skip(0) =~= s);
    }
}

/// What the signed-integer parser returns on `s`: after an optional
/// leading `'-'`, the longest all-digit prefix is read as a decimal
/// numeral. Failure when no digit follows the optional sign, and when the
/// (signed) value falls outside the representable range.
pub open spec fn spec_integer_result(s: Seq<char>) -> Option<(i32, Seq<char>)> {
    let negative = s.len() > 0 && s[0] == '-';
    let body = if negative {
        s.skip(1)
    } else {
        s
    };
    let run = digit_run_len(body);
    if run == 0 {
        None
    } else {
        let value = digits_value(body.take(run));
        if negative {
            if value <= 0x8000_0000 {
                Some(((-value) as i32, body.skip(run)))
            } else {
                None
            }
        } else {
            if value <= 0x7FFF_FFFF {
                Some((value as i32, body.skip(run)))
            } else {
                None
            }
        }
    }
}

/// The signed-integer parser reads exactly the decimal numeral at the
/// front of the input: an optional `'-'`, then the longest all-digit
/// prefix, with overflow of the representable range a failure.
pub proof fn lemma_integer_parses_decimal(p: IntegerParser, s: Seq<char>)
    requires
        p == spec_integer_parser(),
    ensures
        p.spec_parse(s) == spec_integer_result(s),
{
    let negative = s.len() > 0 && s[0] == '-';
    let body = if negative {
        s.skip(1)
    } else {
        s
    };
    let run = digit_run_len(body);
    lemma_digit_run(body);
    lemma_many_rec_digit_run(body);
    assert(all_digits(body.take(run))) by {
        assert(forall|j: int|
            0 <= j < run ==> body.take(run)[j] == #[trigger] body[j]);
    }
    if run > 0 {
        lemma_digits_value_nonneg(body.take(run));
    }
    if negative {
        assert(s.subrange(1, s.len() as int) =~= body);
        assert(!is_digit_char('-')) by {
            assert('-' as u32 == 45);
        }
    }
}

/// Matches an optional leading `'-'` followed by one-or-more decimal
/// digits, parsed into a signed integer value. Fails if no digit follows,
/// and fails — rather than wrapping, saturating or panicking — if the
/// digit run overflows the representable range.
pub fn integer() -> (r: IntegerParser)
    ensures
        r == spec_integer_parser(),
        forall|s: Seq<char>| #[trigger] r.spec_parse(s) == spec_integer_result(s),
{
    proof {
        assert forall|s: Seq<char>| #[trigger]
            spec_integer_parser().spec_parse(s) == spec_integer_result(s) by {
            lemma_integer_parses_decimal(spec_integer_parser(), s);
        }
    }
    let neg = AndThen {
        parser: SkipAnd {
            parser: Satisfy { predicate: IsChar { expected: '-' } },
            next: Many1 { parser: Satisfy { predicate: IsDigit } },
        },
        and_then_fn: IntoInteger { negative: true },
    };
    let pos = AndThen {
        parser: Many1 { parser: Satisfy { predicate: IsDigit } },
        and_then_fn: IntoInteger { negative: false },
    };
    Or { parser: neg, other: pos }
}

} // verus!
