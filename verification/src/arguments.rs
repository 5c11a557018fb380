//! Reading and checking of what the caller asks for, before any file is
//! touched.

use crate::errors::{Error, ErrorView};
use crate::timetypes::fits_i64;
use vstd::prelude::*;
use vstd::string::{is_ascii, StrSliceExecFns};
use vstd::utf8::is_ascii_chars;

verus! {

/// Whether `c` is one of the digits `0` to `9`.
pub open spec fn is_digit(c: char) -> bool {
    '0' <= c <= '9'
}

/// Whether `digits` holds nothing but digits.
pub open spec fn all_digits(digits: Seq<char>) -> bool {
    forall|i: int| 0 <= i < digits.len() ==> is_digit(#[trigger] digits[i])
}

/// The number that the digits of `digits` write in base ten.
pub open spec fn digits_value(digits: Seq<char>) -> int
    decreases digits.len(),
{
    if digits.len() == 0 {
        0
    } else {
        10 * digits_value(digits.drop_last()) + (digits.last() as int - '0' as int)
    }
}

/// The number that `text` writes: one or more digits, with or without one
/// `+` or `-` before them and with nothing else around them, that give a
/// number within the range of `i64`. Any other text writes no number.
pub open spec fn decimal_i64(text: Seq<char>) -> Option<i64> {
    let signed = text.len() > 0 && (text[0] == '-' || text[0] == '+');
    let digits = if signed {
        text.skip(1)
    } else {
        text
    };
    let value = if signed && text[0] == '-' {
        -digits_value(digits)
    } else {
        digits_value(digits)
    };
    if digits.len() > 0 && all_digits(digits) && fits_i64(value) {
        Some(value as i64)
    } else {
        None
    }
}

/// Whether `label` names a character encoding of the WHATWG Encoding
/// standard, as `encoding::label::encoding_from_whatwg_label` knows them.
pub uninterp spec fn is_whatwg_label(label: Seq<char>) -> bool;

/// Calls `encoding::label::encoding_from_whatwg_label` and tells whether it
/// found an encoding. Not proved: it is assumed that the result depends on
/// the characters of `label` alone.
#[verifier::external_body]
fn whatwg_label_is_known(label: &str) -> (known: bool)
    ensures
        known == is_whatwg_label(label@),
{
    encoding::label::encoding_from_whatwg_label(label).is_some()
}

/// More digits never write a smaller number.
proof fn lemma_digits_value_grows(digits: Seq<char>, k: int)
    requires
        all_digits(digits),
        0 <= k <= digits.len(),
    ensures
        0 <= digits_value(digits.take(k)) <= digits_value(digits),
    decreases digits.len() - k,
{
    if k == digits.len() {
        assert(digits.take(k) =~= digits);
        lemma_digits_value_is_not_negative(digits);
    } else {
        let head = digits.drop_last();
        lemma_digits_value_grows(head, k);
        assert(head.take(k) =~= digits.take(k));
    }
}

/// Digits write no negative number.
proof fn lemma_digits_value_is_not_negative(digits: Seq<char>)
    requires
        all_digits(digits),
    ensures
        0 <= digits_value(digits),
    decreases digits.len(),
{
    if digits.len() > 0 {
        lemma_digits_value_is_not_negative(digits.drop_last());
    }
}

/// A text with a character beyond the ASCII range writes no number.
proof fn lemma_non_ascii_is_no_number(text: Seq<char>)
    requires
        !is_ascii_chars(text),
    ensures
        decimal_i64(text).is_none(),
{
    let at = choose|i: int|
        0 <= i < text.len() && !('\0' <= #[trigger] text[i] && text[i] <= '\u{7f}');
    if at > 0 {
        assert(text.skip(1)[at - 1] == text[at]);
    }
}

/// The number that `text` writes in decimal digits.
pub fn parse_decimal_i64(text: &str) -> (number: Option<i64>)
    ensures
        number == decimal_i64(text@),
{
    if !text.is_ascii() {
        proof {
            lemma_non_ascii_is_no_number(text@);
        }
        return None;
    }
    let n: usize = text.unicode_len();
    if n == 0 {
        return None;
    }
    let first: u8 = text.get_ascii(0);
    // 45 is `-`, 43 is `+`, and the digits are 48 to 57
    let negative = first == 45;
    let signed = negative || first == 43;
    let start: usize = if signed {
        1
    } else {
        0
    };
    let ghost digits = if signed {
        text@.skip(1)
    } else {
        text@
    };
    if start == n {
        return None;
    }
    let mut magnitude: i128 = 0;
    let mut i: usize = start;
    while i < n
        invariant
            is_ascii(text),
            n == text@.len(),
            start <= i <= n,
            start <= 1,
            digits.len() == n - start,
            forall|j: int| 0 <= j < digits.len() ==> #[trigger] digits[j] == text@[j + start],
            forall|j: int| 0 <= j < i - start ==> is_digit(#[trigger] digits[j]),
            magnitude == digits_value(digits.take(i - start)),
            0 <= magnitude <= 0x8000_0000_0000_0000,
            digits == if text@[0] == '-' || text@[0] == '+' {
                text@.skip(1)
            } else {
                text@
            },
            negative == (text@[0] == '-'),
        decreases n - i,
    {
        let byte: u8 = text.get_ascii(i);
        if byte < 48 || byte > 57 {
            assert(!is_digit(digits[i - start]));
            return None;
        }
        proof {
            assert(digits.take(i + 1 - start).drop_last() =~= digits.take(i - start));
        }
        magnitude = magnitude * 10 + (byte - 48) as i128;
        // larger than any `i64` with either sign, and more digits make it no smaller
        if magnitude > 0x8000_0000_0000_0000 {
            proof {
                if all_digits(digits) {
                    lemma_digits_value_grows(digits, i + 1 - start);
                }
            }
            return None;
        }
        i += 1;
    }
    proof {
        assert(digits.take(n - start) =~= digits);
    }
    let value: i128 = if negative {
        -magnitude
    } else {
        magnitude
    };
    if value < -0x8000_0000_0000_0000 || value > 0x7fff_ffff_ffff_ffff {
        None
    } else {
        Some(value as i64)
    }
}

/// Reads the numeric argument `parameter_name` from `text`.
pub fn unpack_number_i64(parameter_name: &str, text: &str) -> (number: Result<i64, Error>)
    ensures
        match decimal_i64(text@) {
            Some(value) => number == Ok::<i64, Error>(value),
            None => number.is_err() && number.unwrap_err()@ == (ErrorView::ArgumentParseError {
                argument_name: parameter_name@,
                text: text@,
            }),
        },
{
    match parse_decimal_i64(text) {
        Some(value) => Ok(value),
        None => Err(
            Error::ArgumentParseError {
                argument_name: parameter_name.to_owned(),
                text: text.to_owned(),
            },
        ),
    }
}

/// Accepts the encoding label `label` where it is `known`.
pub fn encoding_label_from_known(label: &str, known: bool) -> (checked: Result<(), Error>)
    ensures
        known ==> checked.is_ok(),
        !known ==> checked.is_err() && checked.unwrap_err()@ == (ErrorView::UnknownEncoding {
            label: label@,
        }),
{
    if known {
        Ok(())
    } else {
        Err(Error::UnknownEncoding { label: label.to_owned() })
    }
}

/// Accepts `label` where it names a character encoding.
pub fn check_encoding_label(label: &str) -> (checked: Result<(), Error>)
    ensures
        is_whatwg_label(label@) ==> checked.is_ok(),
        !is_whatwg_label(label@) ==> checked.is_err() && checked.unwrap_err()@ == (
        ErrorView::UnknownEncoding { label: label@ }),
{
    encoding_label_from_known(label, whatwg_label_is_known(label))
}

} // verus!
