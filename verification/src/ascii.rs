//! Reading single ASCII characters and searching byte strings.

use vstd::prelude::*;

verus! {

/// Whether `b` is one of the characters `0` to `9`.
pub open spec fn is_digit(b: u8) -> bool {
    '0' as u8 <= b <= '9' as u8
}

/// The number that the decimal digit `b` stands for.
pub open spec fn digit_value(b: u8) -> Option<u8> {
    if is_digit(b) {
        Some((b - '0' as u8) as u8)
    } else {
        None
    }
}

/// The number written by the two decimal digits `tens` and `units`.
pub open spec fn two_digit_value(tens: u8, units: u8) -> Option<u8> {
    if is_digit(tens) && is_digit(units) {
        Some(((tens - '0' as u8) * 10 + (units - '0' as u8)) as u8)
    } else {
        None
    }
}

/// The number that the hexadecimal digit `b` stands for, in either case.
pub open spec fn hex_value(b: u8) -> Option<u8> {
    if is_digit(b) {
        Some((b - '0' as u8) as u8)
    } else if 'a' as u8 <= b <= 'f' as u8 {
        Some((b - 'a' as u8 + 10) as u8)
    } else if 'A' as u8 <= b <= 'F' as u8 {
        Some((b - 'A' as u8 + 10) as u8)
    } else {
        None
    }
}

/// Where the digits of a written number begin: behind its sign, if it has
/// one.
pub open spec fn digits_start(text: Seq<u8>) -> int {
    if text.len() > 0 && (text[0] == '+' as u8 || text[0] == '-' as u8) {
        1
    } else {
        0
    }
}

/// Whether `text` writes a decimal number: an optional sign, then decimal
/// digits with at most one point before, between or behind them, and at
/// least one digit. `230.5`, `-7`, `5.` and `.5` are decimals; the empty
/// text, `.`, `1e3` and `1,5` are not.
pub open spec fn is_decimal(text: Seq<u8>) -> bool {
    let start = digits_start(text);
    &&& exists|i: int| start <= i < text.len() && is_digit(#[trigger] text[i])
    &&& forall|i: int|
        start <= i < text.len() ==> is_digit(#[trigger] text[i]) || text[i] == '.' as u8
    &&& forall|i: int, j: int|
        start <= i < j < text.len() ==> !(#[trigger] text[i] == '.' as u8 && #[trigger] text[j]
            == '.' as u8)
}

/// Tells whether `text` writes a decimal number.
pub fn check_decimal(text: &[u8]) -> (r: bool)
    ensures
        r == is_decimal(text@),
{
    let n: usize = text.len();
    let start: usize = if n > 0 && (text[0] == '+' as u8 || text[0] == '-' as u8) {
        1
    } else {
        0
    };
    let mut digits: bool = false;
    let mut point: bool = false;
    let mut i: usize = start;
    while i < n
        invariant
            n == text@.len(),
            start == digits_start(text@),
            start <= i <= n,
            digits <==> exists|k: int| start <= k < i && is_digit(#[trigger] text@[k]),
            point <==> exists|k: int| start <= k < i && #[trigger] text@[k] == '.' as u8,
            forall|k: int| start <= k < i ==> is_digit(#[trigger] text@[k]) || text@[k] == '.' as u8,
            forall|k: int, m: int|
                start <= k < m < i ==> !(#[trigger] text@[k] == '.' as u8 && #[trigger] text@[m]
                    == '.' as u8),
        decreases n - i,
    {
        let b: u8 = text[i];
        if '0' as u8 <= b && b <= '9' as u8 {
            digits = true;
        } else if b == '.' as u8 {
            if point {
                proof {
                    let k = choose|k: int| start <= k < i && #[trigger] text@[k] == '.' as u8;
                    assert(text@[k] == '.' as u8 && text@[i as int] == '.' as u8);
                }
                return false;
            }
            point = true;
        } else {
            assert(!(is_digit(text@[i as int]) || text@[i as int] == '.' as u8));
            return false;
        }
        i += 1;
    }
    digits
}

/// Reads one decimal digit.
pub fn digit(b: u8) -> (r: Option<u8>)
    ensures
        r == digit_value(b),
{
    if '0' as u8 <= b && b <= '9' as u8 {
        Some(b - '0' as u8)
    } else {
        None
    }
}

/// Reads a number of exactly two decimal digits.
pub fn two_digits(tens: u8, units: u8) -> (r: Option<u8>)
    ensures
        r == two_digit_value(tens, units),
{
    match (digit(tens), digit(units)) {
        (Some(t), Some(u)) => Some(t * 10 + u),
        _ => None,
    }
}

/// Reads one hexadecimal digit.
pub fn hex_digit(b: u8) -> (r: Option<u8>)
    ensures
        r == hex_value(b),
{
    if '0' as u8 <= b && b <= '9' as u8 {
        Some(b - '0' as u8)
    } else if 'a' as u8 <= b && b <= 'f' as u8 {
        Some(b - 'a' as u8 + 10)
    } else if 'A' as u8 <= b && b <= 'F' as u8 {
        Some(b - 'A' as u8 + 10)
    } else {
        None
    }
}

/// The position of the first `needle` in `text`.
pub fn find(text: &[u8], needle: u8) -> (r: Option<usize>)
    ensures
        match r {
            Some(i) => text@.index_of_first(needle) == Some(i as int),
            None => text@.index_of_first(needle) is None,
        },
{
    let mut i: usize = 0;
    while i < text.len()
        invariant
            i <= text@.len(),
            forall|j: int| 0 <= j < i ==> text@[j] != needle,
        decreases text@.len() - i,
    {
        if text[i] == needle {
            proof {
                text@.index_of_first_ensures(needle);
            }
            return Some(i);
        }
        i += 1;
    }
    proof {
        text@.index_of_first_ensures(needle);
    }
    None
}

/// The position of the last `needle` in `text`.
pub fn rfind(text: &[u8], needle: u8) -> (r: Option<usize>)
    ensures
        match r {
            Some(i) => text@.index_of_last(needle) == Some(i as int),
            None => text@.index_of_last(needle) is None,
        },
{
    let mut i: usize = text.len();
    while i > 0
        invariant
            i <= text@.len(),
            forall|j: int| i <= j < text@.len() ==> text@[j] != needle,
        decreases i,
    {
        i -= 1;
        if text[i] == needle {
            proof {
                text@.index_of_last_ensures(needle);
            }
            return Some(i);
        }
    }
    proof {
        text@.index_of_last_ensures(needle);
    }
    None
}

} // verus!
