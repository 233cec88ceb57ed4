//! Decimal numbers written as text, as `str::parse` reads them for integers.

use std::num::IntErrorKind;
use vstd::prelude::*;

verus! {

/// Whether `c` is one of the ASCII digits `0` to `9`.
pub open spec fn is_ascii_digit(c: char) -> bool {
    '0' <= c && c <= '9'
}

/// A non-empty run of ASCII digits.
pub open spec fn is_digit_run(s: Seq<char>) -> bool {
    s.len() > 0 && forall|i: int| 0 <= i < s.len() ==> is_ascii_digit(#[trigger] s[i])
}

/// The value of a run of decimal digits.
pub open spec fn digits_value(s: Seq<char>) -> int
    decreases s.len(),
{
    if s.len() == 0 {
        0
    } else {
        digits_value(s.drop_last()) * 10 + (s.last() as int - '0' as int)
    }
}

/// The integer written in `s`: an optional `+` or `-` sign followed by one or
/// more ASCII digits and nothing else; `None` for any other text.
pub open spec fn decimal_value(s: Seq<char>) -> Option<int> {
    if s.len() > 0 && s[0] == '-' && is_digit_run(s.skip(1)) {
        Some(-digits_value(s.skip(1)))
    } else if s.len() > 0 && s[0] == '+' && is_digit_run(s.skip(1)) {
        Some(digits_value(s.skip(1)))
    } else if is_digit_run(s) {
        Some(digits_value(s))
    } else {
        None
    }
}

/// Whether `s` writes an integer in `lo..=hi`.
pub open spec fn decimal_in_range(s: Seq<char>, lo: int, hi: int) -> bool {
    decimal_value(s) matches Some(v) && lo <= v <= hi
}

/// Why a text is not an integer of the target type: the kinds of
/// `std::num::IntErrorKind`.
#[derive(Clone, Copy, Debug, PartialEq, Eq, Structural)]
pub enum IntProblem {
    /// The text is empty.
    Empty,
    /// The text holds a character that is not a digit in its place (a sign
    /// alone counts as one).
    InvalidDigit,
    /// The number is above the largest value of the type.
    PosOverflow,
    /// The number is below the smallest value of the type.
    NegOverflow,
    /// The number is zero where the type excludes zero.
    Zero,
    /// A kind that std added after these.
    Unknown,
}

/// Whether `k` is a reason that std's integer parsing gives for refusing `s`
/// as a number in `lo..=hi`: an empty text is `Empty`; a sign alone is
/// `InvalidDigit`; a well-formed number out of range is `PosOverflow` above
/// and `NegOverflow` below; a text with another character out of place is
/// `InvalidDigit`, or an overflow where the digits before that character
/// already leave the range.
pub open spec fn problem_fits(s: Seq<char>, k: IntProblem, lo: int, hi: int) -> bool {
    match decimal_value(s) {
        Some(v) => if v > hi {
            k == IntProblem::PosOverflow
        } else if v < lo {
            k == IntProblem::NegOverflow
        } else {
            false
        },
        None => if s.len() == 0 {
            k == IntProblem::Empty
        } else if s.len() == 1 && (s[0] == '+' || s[0] == '-') {
            k == IntProblem::InvalidDigit
        } else {
            k == IntProblem::InvalidDigit || k == IntProblem::PosOverflow || k
                == IntProblem::NegOverflow
        },
    }
}

/// The kind of the error that `str::parse::<i32>` gives for the text `s`.
pub uninterp spec fn i32_parse_problem(s: Seq<char>) -> IntProblem;

/// The kind of the error that `str::parse::<i64>` gives for the text `s`.
pub uninterp spec fn i64_parse_problem(s: Seq<char>) -> IntProblem;

/// `str::parse::<i32>`, with the kind of its error.
///
/// Contract (from the documentation of `i32::from_str_radix` and of
/// `IntErrorKind`): the text must be an optional sign followed by only decimal
/// digits, with a value that fits; then the value is that number. Otherwise
/// the error's kind is what `i32_parse_problem` names for the text, and is one
/// that `problem_fits` allows.
#[verifier::external_body]
fn parse_i32(raw: &str) -> (r: Result<i32, IntProblem>)
    ensures
        r is Ok <==> decimal_in_range(raw@, i32::MIN as int, i32::MAX as int),
        r matches Ok(v) ==> decimal_value(raw@) == Some(v as int),
        r matches Err(k) ==> k == i32_parse_problem(raw@) && problem_fits(raw@, k, i32::MIN as int, i32::MAX as int),
{
    raw.parse::<i32>().map_err(|e| match e.kind() {
        IntErrorKind::Empty => IntProblem::Empty,
        IntErrorKind::InvalidDigit => IntProblem::InvalidDigit,
        IntErrorKind::PosOverflow => IntProblem::PosOverflow,
        IntErrorKind::NegOverflow => IntProblem::NegOverflow,
        IntErrorKind::Zero => IntProblem::Zero,
        _ => IntProblem::Unknown,
    })
}

/// `str::parse::<i64>`, with the kind of its error.
///
/// Contract (from the documentation of `i64::from_str_radix` and of
/// `IntErrorKind`): the text must be an optional sign followed by only decimal
/// digits, with a value that fits; then the value is that number. Otherwise
/// the error's kind is what `i64_parse_problem` names for the text, and is one
/// that `problem_fits` allows.
#[verifier::external_body]
fn parse_i64(raw: &str) -> (r: Result<i64, IntProblem>)
    ensures
        r is Ok <==> decimal_in_range(raw@, i64::MIN as int, i64::MAX as int),
        r matches Ok(v) ==> decimal_value(raw@) == Some(v as int),
        r matches Err(k) ==> k == i64_parse_problem(raw@) && problem_fits(raw@, k, i64::MIN as int, i64::MAX as int),
{
    raw.parse::<i64>().map_err(|e| match e.kind() {
        IntErrorKind::Empty => IntProblem::Empty,
        IntErrorKind::InvalidDigit => IntProblem::InvalidDigit,
        IntErrorKind::PosOverflow => IntProblem::PosOverflow,
        IntErrorKind::NegOverflow => IntProblem::NegOverflow,
        IntErrorKind::Zero => IntProblem::Zero,
        _ => IntProblem::Unknown,
    })
}

/// An integer type that numeric entity identifiers are parsed into.
pub trait NumericId: Sized + Copy {
    /// The value as a mathematical integer.
    spec fn value_of(self) -> int;

    /// Smallest value of the type.
    spec fn lowest() -> int;

    /// Largest value of the type.
    spec fn highest() -> int;

    /// The kind of the error that parsing the text `s` as the type gives.
    spec fn parse_problem(s: Seq<char>) -> IntProblem;

    /// Parses decimal text into a value of the type; on failure, why.
    fn parse_decimal(raw: &str) -> (r: Result<Self, IntProblem>)
        ensures
            r is Ok <==> decimal_in_range(raw@, Self::lowest(), Self::highest()),
            r matches Ok(v) ==> decimal_value(raw@) == Some(v.value_of()),
            r matches Err(k) ==> k == Self::parse_problem(raw@) && problem_fits(raw@, k, Self::lowest(), Self::highest()),
    ;
}

impl NumericId for i32 {
    open spec fn value_of(self) -> int {
        self as int
    }

    open spec fn lowest() -> int {
        i32::MIN as int
    }

    open spec fn highest() -> int {
        i32::MAX as int
    }

    open spec fn parse_problem(s: Seq<char>) -> IntProblem {
        i32_parse_problem(s)
    }

    fn parse_decimal(raw: &str) -> (r: Result<i32, IntProblem>) {
        parse_i32(raw)
    }
}

impl NumericId for i64 {
    open spec fn value_of(self) -> int {
        self as int
    }

    open spec fn lowest() -> int {
        i64::MIN as int
    }

    open spec fn highest() -> int {
        i64::MAX as int
    }

    open spec fn parse_problem(s: Seq<char>) -> IntProblem {
        i64_parse_problem(s)
    }

    fn parse_decimal(raw: &str) -> (r: Result<i64, IntProblem>) {
        parse_i64(raw)
    }
}

} // verus!
