//! The fields of a configuration entry as they are written, before they are
//! checked: a position may be a number or a text that holds one.

use crate::remove::pattern_error_text;
use vstd::prelude::*;
use vstd::string::StringExecFns;
use vstd::string::StringSliceAdditionalSpecFns;

verus! {

/// The byte of the ASCII character `-`.
const MINUS: u8 = 45;

/// The byte of the ASCII character `+`.
const PLUS: u8 = 43;

/// The byte of the ASCII character `0`.
const ZERO: u8 = 48;

/// The byte of the ASCII character `9`.
const NINE: u8 = 57;

/// Whether `c` is one of the ten decimal digits.
pub open spec fn is_digit(c: char) -> bool {
    '0' <= c <= '9'
}

/// Whether `digits` holds decimal digits only.
pub open spec fn all_digits(digits: Seq<char>) -> bool {
    forall|i: int| 0 <= i < digits.len() ==> is_digit(#[trigger] digits[i])
}

/// The number that a run of decimal digits writes; 0 for the empty run.
pub open spec fn digits_value(digits: Seq<char>) -> int
    decreases digits.len(),
{
    if digits.len() == 0 {
        0
    } else {
        10 * digits_value(digits.drop_last()) + (digits.last() as int - '0' as int)
    }
}

/// The number from -128 to 127 that `text` writes in decimal: an optional
/// `+` or `-`, then one digit or more and nothing else. `None` for any other
/// text, and for a number outside that range.
pub open spec fn decimal_i8(text: Seq<char>) -> Option<i8> {
    let signed = text.len() > 0 && (text[0] == '-' || text[0] == '+');
    let digits = if signed {
        text.skip(1)
    } else {
        text
    };
    let magnitude = digits_value(digits);
    let value = if text.len() > 0 && text[0] == '-' {
        -magnitude
    } else {
        magnitude
    };
    if digits.len() > 0 && all_digits(digits) && -128 <= value <= 127 {
        Some(value as i8)
    } else {
        None
    }
}

proof fn lemma_value_of_prefix(digits: Seq<char>, len: int)
    requires
        all_digits(digits),
        0 <= len <= digits.len(),
    ensures
        0 <= digits_value(digits.take(len)) <= digits_value(digits),
    decreases digits.len(),
{
    if digits.len() == 0 {
        assert(digits.take(len) =~= digits);
    } else if len == digits.len() {
        assert(digits.take(len) =~= digits);
        lemma_value_of_prefix(digits.drop_last(), len - 1);
        assert(is_digit(digits.last()));
    } else {
        lemma_value_of_prefix(digits.drop_last(), len);
        assert(digits.drop_last().take(len) =~= digits.take(len));
        assert(is_digit(digits.last()));
    }
}

/// Reads a number from -128 to 127 written in decimal.
pub fn parse_i8(text: &str) -> (number: Option<i8>)
    ensures
        number == decimal_i8(text@),
{
    broadcast use vstd::string::is_ascii_spec_bytes;

    if !text.is_ascii() {
        proof {
            let at = choose|i: int|
                0 <= i < text@.len() && !('\0' <= #[trigger] text@[i] <= '\u{7f}');
            assert(!is_digit(text@[at]));
            if text@[0] == '-' || text@[0] == '+' {
                assert(text@.skip(1)[at - 1] == text@[at]);
            }
        }
        return None;
    }
    let bytes = text.as_bytes();
    let len = bytes.len();
    if len == 0 {
        return None;
    }
    let negative = bytes[0] == MINUS;
    let start: usize = if negative || bytes[0] == PLUS {
        1
    } else {
        0
    };
    let ghost digits = text@.skip(start as int);
    proof {
        assert('\0' <= text@[0] <= '\u{7f}');
        assert(text@.skip(0) =~= text@);
    }
    let mut magnitude: i32 = 0;
    let mut next = start;
    while next < len
        invariant
            text.is_ascii(),
            bytes@ == text.spec_bytes(),
            0 < len == text@.len(),
            negative <==> text@[0] == '-',
            digits == if text@[0] == '-' || text@[0] == '+' {
                text@.skip(1)
            } else {
                text@
            },
            digits.len() == len - start,
            forall|i: int| 0 <= i < digits.len() ==> digits[i] == text@[start + i],
            start <= next <= len,
            all_digits(digits.take(next - start)),
            magnitude == digits_value(digits.take(next - start)),
            0 <= magnitude <= 128,
        decreases len - next,
    {
        let byte = bytes[next];
        let ghost seen = digits.take(next - start + 1);
        proof {
            assert(seen.drop_last() =~= digits.take(next - start));
            assert('\0' <= text@[next as int] <= '\u{7f}');
            assert(seen.last() as int == byte);
        }
        if byte < ZERO || byte > NINE {
            assert(!is_digit(digits[next - start]));
            return None;
        }
        magnitude = magnitude * 10 + (byte - ZERO) as i32;
        proof {
            assert forall|i: int| 0 <= i < seen.len() implies is_digit(#[trigger] seen[i]) by {
                if i < seen.len() - 1 {
                    assert(seen[i] == digits.take(next - start)[i]);
                }
            }
        }
        if magnitude > 128 {
            proof {
                if all_digits(digits) {
                    lemma_value_of_prefix(digits, next - start + 1);
                }
            }
            return None;
        }
        next = next + 1;
    }
    proof {
        assert(digits.take(next - start) =~= digits);
    }
    if next == start {
        None
    } else if negative {
        Some((0 - magnitude) as i8)
    } else if magnitude <= 127 {
        Some(magnitude as i8)
    } else {
        None
    }
}

/// The `position` field of an entry, as written.
#[derive(Debug, PartialEq, Eq)]
pub enum PositionField {
    /// The entry has no such field.
    Missing,
    /// The field is written as null.
    Null,
    /// The field is a whole number.
    Number(i64),
    /// The field is a text.
    Text(String),
}

impl PositionField {
    /// The position that the field gives, where it is a number from -128 to
    /// 127 or a text that writes one.
    pub open spec fn number(&self) -> Option<i8> {
        match self {
            PositionField::Number(number) => if -128 <= *number <= 127 {
                Some(*number as i8)
            } else {
                None
            },
            PositionField::Text(text) => decimal_i8(text@),
            _ => None,
        }
    }

    /// Reads the position from a field that is a number or a text.
    pub fn to_number(&self) -> (number: Option<i8>)
        ensures
            number == self.number(),
    {
        match self {
            PositionField::Number(number) => if -128 <= *number && *number <= 127 {
                Some(*number as i8)
            } else {
                None
            },
            PositionField::Text(text) => parse_i8(text.as_str()),
            _ => None,
        }
    }
}

/// Why a configuration is refused.
pub enum Fault {
    /// A `position` is null where a number is due, or is neither a number
    /// from -128 to 127 nor a text that writes one.
    Position,
    /// A `regexp` is not a valid pattern.
    Pattern,
}

/// The refusal of a configuration.
#[derive(Debug)]
pub enum ConfigError {
    /// A `position` is null where a number is due, or is neither a number
    /// from -128 to 127 nor a text that writes one.
    InvalidPosition,
    /// A `regexp` is not a valid pattern; the compiler's objection is inside.
    InvalidPattern(grep_regex::Error),
}

impl View for ConfigError {
    type V = Fault;

    open spec fn view(&self) -> Fault {
        match self {
            ConfigError::InvalidPosition => Fault::Position,
            ConfigError::InvalidPattern(_) => Fault::Pattern,
        }
    }
}

/// What is said of a position that is refused.
pub open spec fn position_message() -> Seq<char> {
    "position is not a whole number from -128 to 127"@
}

impl ConfigError {
    /// The refusal in words. For a pattern they are the pattern compiler's.
    pub fn message(&self) -> (text: String)
        ensures
            self@ == Fault::Position ==> text@ == position_message(),
    {
        match self {
            ConfigError::InvalidPosition => String::from_str(
                "position is not a whole number from -128 to 127",
            ),
            ConfigError::InvalidPattern(error) => pattern_error_text(error),
        }
    }
}

} // verus!
