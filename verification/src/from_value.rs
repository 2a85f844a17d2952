//! Typed interpretation of argument text: the [`FromValue`] trait and its implementations
//! for integers, `bool`, `char` and `String`.
use vstd::prelude::*;
use crate::text::str_equal;

verus! {

/// Types whose values can be read from the text of an argument.
pub trait FromValue: Sized {
    /// Whether `text` denotes some value of this type.
    spec fn accepts(text: Seq<char>) -> bool;

    /// Whether `value` is the value that `text` denotes.
    spec fn denotes(text: Seq<char>, value: Self) -> bool;

    /// Reads the value that `text` denotes.
    fn from_text(text: &str) -> (r: Option<Self>)
        ensures
            r is Some <==> Self::accepts(text@),
            r matches Some(v) ==> Self::denotes(text@, v),
    ;
}

/// A decimal digit.
pub open spec fn is_digit(c: char) -> bool {
    '0' <= c <= '9'
}

/// The value of a decimal digit.
pub open spec fn digit_value(c: char) -> int {
    c as int - '0' as int
}

/// Every character of `s` is a decimal digit.
pub open spec fn all_digits(s: Seq<char>) -> bool {
    forall|i: int| 0 <= i < s.len() ==> is_digit(#[trigger] s[i])
}

/// The number written in decimal by the digits `s` (most significant first).
pub open spec fn decimal(s: Seq<char>) -> int
    decreases s.len(),
{
    if s.len() == 0 {
        0
    } else {
        10 * decimal(s.drop_last()) + digit_value(s.last())
    }
}

/// The integer written in `text`: an optional `+` (or, when `signed`, `-`) followed by
/// one or more decimal digits, and nothing else.
pub open spec fn integer_text(text: Seq<char>, signed: bool) -> Option<int> {
    let negative = signed && text.len() > 0 && text[0] == '-';
    let start: int = if text.len() > 0 && (text[0] == '+' || negative) {
        1
    } else {
        0
    };
    let digits = text.skip(start);
    if digits.len() > 0 && all_digits(digits) {
        Some(
            if negative {
                -decimal(digits)
            } else {
                decimal(digits)
            },
        )
    } else {
        None
    }
}

/// `text` denotes an integer in `low..=high`.
pub open spec fn integer_in(text: Seq<char>, signed: bool, low: int, high: int) -> bool {
    integer_text(text, signed) matches Some(v) && low <= v <= high
}

/// Magnitudes at or above this bound are out of range for every supported integer type.
const MAGNITUDE_CAP: u128 = 0x1_0000_0000_0000_0001u128;

/// Reads the integer written in `text` when it lies in `low..=high`.
fn integer_in_range(text: &str, signed: bool, low: i128, high: i128) -> (r: Option<i128>)
    requires
        -0x1_0000_0000_0000_0000 <= low <= high <= 0x1_0000_0000_0000_0000,
    ensures
        r is Some <==> integer_in(text@, signed, low as int, high as int),
        r matches Some(v) ==> integer_text(text@, signed) == Some(v as int),
{
    let n = text.unicode_len();
    let negative = signed && n > 0 && text.get_char(0) == '-';
    let start: usize = if n > 0 && (text.get_char(0) == '+' || negative) {
        1
    } else {
        0
    };
    let ghost digits = text@.skip(start as int);
    if start >= n {
        return None;
    }
    let mut magnitude: u128 = 0;
    let mut j: usize = start;
    while j < n
        invariant
            n == text@.len(),
            start <= j <= n,
            start < n,
            digits == text@.skip(start as int),
            negative == (signed && text@.len() > 0 && text@[0] == '-'),
            start == (if text@.len() > 0 && (text@[0] == '+' || negative) { 1int } else { 0int }),
            all_digits(text@.subrange(start as int, j as int)),
            magnitude <= MAGNITUDE_CAP,
            magnitude < MAGNITUDE_CAP ==> magnitude == decimal(text@.subrange(start as int, j as int)),
            magnitude == MAGNITUDE_CAP ==> decimal(text@.subrange(start as int, j as int)) >= MAGNITUDE_CAP,
        decreases n - j,
    {
        let c = text.get_char(j);
        if !('0' <= c && c <= '9') {
            proof {
                assert(digits[j - start] == c);
                assert(!is_digit(digits[j - start]));
                assert(!all_digits(digits));
            }
            return None;
        }
        let d = (c as u32 - '0' as u32) as u128;
        proof {
            let prev = text@.subrange(start as int, j as int);
            let next = text@.subrange(start as int, j + 1);
            assert(next.drop_last() =~= prev);
            assert(next.last() == c);
            assert(decimal(next) == 10 * decimal(prev) + digit_value(c));
            assert forall|i: int| 0 <= i < next.len() implies is_digit(#[trigger] next[i]) by {
                if i < prev.len() {
                    assert(next[i] == prev[i]);
                }
            }
        }
        if magnitude < MAGNITUDE_CAP {
            let m = magnitude * 10 + d;
            if m >= MAGNITUDE_CAP {
                magnitude = MAGNITUDE_CAP;
            } else {
                magnitude = m;
            }
        }
        j = j + 1;
    }
    proof {
        assert(text@.subrange(start as int, n as int) =~= digits);
    }
    if magnitude == MAGNITUDE_CAP {
        return None;
    }
    let value: i128 = if negative {
        -(magnitude as i128)
    } else {
        magnitude as i128
    };
    if low <= value && value <= high {
        Some(value)
    } else {
        None
    }
}

impl FromValue for u8 {
    open spec fn accepts(text: Seq<char>) -> bool {
        integer_in(text, false, 0, u8::MAX as int)
    }

    open spec fn denotes(text: Seq<char>, value: u8) -> bool {
        integer_text(text, false) == Some(value as int)
    }

    fn from_text(text: &str) -> (r: Option<u8>) {
        match integer_in_range(text, false, 0, u8::MAX as i128) {
            Some(v) => Some(v as u8),
            None => None,
        }
    }
}

impl FromValue for u16 {
    open spec fn accepts(text: Seq<char>) -> bool {
        integer_in(text, false, 0, u16::MAX as int)
    }

    open spec fn denotes(text: Seq<char>, value: u16) -> bool {
        integer_text(text, false) == Some(value as int)
    }

    fn from_text(text: &str) -> (r: Option<u16>) {
        match integer_in_range(text, false, 0, u16::MAX as i128) {
            Some(v) => Some(v as u16),
            None => None,
        }
    }
}

impl FromValue for u32 {
    open spec fn accepts(text: Seq<char>) -> bool {
        integer_in(text, false, 0, u32::MAX as int)
    }

    open spec fn denotes(text: Seq<char>, value: u32) -> bool {
        integer_text(text, false) == Some(value as int)
    }

    fn from_text(text: &str) -> (r: Option<u32>) {
        match integer_in_range(text, false, 0, u32::MAX as i128) {
            Some(v) => Some(v as u32),
            None => None,
        }
    }
}

impl FromValue for u64 {
    open spec fn accepts(text: Seq<char>) -> bool {
        integer_in(text, false, 0, u64::MAX as int)
    }

    open spec fn denotes(text: Seq<char>, value: u64) -> bool {
        integer_text(text, false) == Some(value as int)
    }

    fn from_text(text: &str) -> (r: Option<u64>) {
        match integer_in_range(text, false, 0, u64::MAX as i128) {
            Some(v) => Some(v as u64),
            None => None,
        }
    }
}

impl FromValue for usize {
    open spec fn accepts(text: Seq<char>) -> bool {
        integer_in(text, false, 0, usize::MAX as int)
    }

    open spec fn denotes(text: Seq<char>, value: usize) -> bool {
        integer_text(text, false) == Some(value as int)
    }

    fn from_text(text: &str) -> (r: Option<usize>) {
        match integer_in_range(text, false, 0, usize::MAX as i128) {
            Some(v) => Some(v as usize),
            None => None,
        }
    }
}

impl FromValue for i8 {
    open spec fn accepts(text: Seq<char>) -> bool {
        integer_in(text, true, i8::MIN as int, i8::MAX as int)
    }

    open spec fn denotes(text: Seq<char>, value: i8) -> bool {
        integer_text(text, true) == Some(value as int)
    }

    fn from_text(text: &str) -> (r: Option<i8>) {
        match integer_in_range(text, true, i8::MIN as i128, i8::MAX as i128) {
            Some(v) => Some(v as i8),
            None => None,
        }
    }
}

impl FromValue for i16 {
    open spec fn accepts(text: Seq<char>) -> bool {
        integer_in(text, true, i16::MIN as int, i16::MAX as int)
    }

    open spec fn denotes(text: Seq<char>, value: i16) -> bool {
        integer_text(text, true) == Some(value as int)
    }

    fn from_text(text: &str) -> (r: Option<i16>) {
        match integer_in_range(text, true, i16::MIN as i128, i16::MAX as i128) {
            Some(v) => Some(v as i16),
            None => None,
        }
    }
}

impl FromValue for i32 {
    open spec fn accepts(text: Seq<char>) -> bool {
        integer_in(text, true, i32::MIN as int, i32::MAX as int)
    }

    open spec fn denotes(text: Seq<char>, value: i32) -> bool {
        integer_text(text, true) == Some(value as int)
    }

    fn from_text(text: &str) -> (r: Option<i32>) {
        match integer_in_range(text, true, i32::MIN as i128, i32::MAX as i128) {
            Some(v) => Some(v as i32),
            None => None,
        }
    }
}

impl FromValue for i64 {
    open spec fn accepts(text: Seq<char>) -> bool {
        integer_in(text, true, i64::MIN as int, i64::MAX as int)
    }

    open spec fn denotes(text: Seq<char>, value: i64) -> bool {
        integer_text(text, true) == Some(value as int)
    }

    fn from_text(text: &str) -> (r: Option<i64>) {
        match integer_in_range(text, true, i64::MIN as i128, i64::MAX as i128) {
            Some(v) => Some(v as i64),
            None => None,
        }
    }
}

impl FromValue for isize {
    open spec fn accepts(text: Seq<char>) -> bool {
        integer_in(text, true, isize::MIN as int, isize::MAX as int)
    }

    open spec fn denotes(text: Seq<char>, value: isize) -> bool {
        integer_text(text, true) == Some(value as int)
    }

    fn from_text(text: &str) -> (r: Option<isize>) {
        match integer_in_range(text, true, isize::MIN as i128, isize::MAX as i128) {
            Some(v) => Some(v as isize),
            None => None,
        }
    }
}

impl FromValue for bool {
    open spec fn accepts(text: Seq<char>) -> bool {
        text == "true"@ || text == "false"@
    }

    open spec fn denotes(text: Seq<char>, value: bool) -> bool {
        value == (text == "true"@)
    }

    fn from_text(text: &str) -> (r: Option<bool>) {
        if str_equal(text, "true") {
            Some(true)
        } else if str_equal(text, "false") {
            Some(false)
        } else {
            None
        }
    }
}

impl FromValue for char {
    open spec fn accepts(text: Seq<char>) -> bool {
        text.len() == 1
    }

    open spec fn denotes(text: Seq<char>, value: char) -> bool {
        value == text[0]
    }

    fn from_text(text: &str) -> (r: Option<char>) {
        if text.unicode_len() == 1 {
            Some(text.get_char(0))
        } else {
            None
        }
    }
}

impl FromValue for String {
    open spec fn accepts(text: Seq<char>) -> bool {
        true
    }

    open spec fn denotes(text: Seq<char>, value: String) -> bool {
        value@ == text
    }

    fn from_text(text: &str) -> (r: Option<String>) {
        Some(text.to_owned())
    }
}

} // verus!
