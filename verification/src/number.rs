//! Decimal integers in text.

use crate::error::{ErrKind, MspErr};
use crate::text::chars_of;
use vstd::prelude::*;

verus! {

/// Whether `c` is one of `0` to `9`.
pub open spec fn is_digit(c: char) -> bool {
    '0' <= c <= '9'
}

/// Whether `s` holds decimal digits only.
pub open spec fn all_digits(s: Seq<char>) -> bool {
    forall|i: int| 0 <= i < s.len() ==> is_digit(#[trigger] s[i])
}

/// The number that the digits of `s` stand for, the last digit weighing least.
pub open spec fn decimal_value(s: Seq<char>) -> int
    decreases s.len(),
{
    if s.len() == 0 {
        0
    } else {
        10 * decimal_value(s.drop_last()) + (s.last() as int - '0' as int)
    }
}

/// The number that `s` stands for where it lies between `lo` and `hi`: an
/// optional `+`, or `-` where `signed`, then one decimal digit or more and
/// nothing else.
pub open spec fn parse_decimal(s: Seq<char>, signed: bool, lo: int, hi: int) -> Option<int> {
    let negative = signed && s.len() > 0 && s[0] == '-';
    let digits = if s.len() > 0 && (s[0] == '+' || negative) {
        s.drop_first()
    } else {
        s
    };
    let value = if negative {
        -decimal_value(digits)
    } else {
        decimal_value(digits)
    };
    if digits.len() > 0 && all_digits(digits) && lo <= value <= hi {
        Some(value)
    } else {
        None
    }
}

/// `s` read as a signed 32-bit decimal number.
pub open spec fn int32_of(s: Seq<char>) -> Option<int> {
    parse_decimal(s, true, i32::MIN as int, i32::MAX as int)
}

/// `s` read as an unsigned 16-bit decimal number.
pub open spec fn uint16_of(s: Seq<char>) -> Option<int> {
    parse_decimal(s, false, 0, u16::MAX as int)
}

/// `s` read as an unsigned 8-bit decimal number.
pub open spec fn uint8_of(s: Seq<char>) -> Option<int> {
    parse_decimal(s, false, 0, u8::MAX as int)
}

/// The digits of `s` from `from` on as a number no greater than `limit`.
fn parse_magnitude(s: &[char], from: usize, limit: u64) -> (r: Option<u64>)
    requires
        from <= s.len(),
        limit <= 0x8000_0000,
    ensures
        ({
            let digits = s@.skip(from as int);
            match r {
                Some(v) => digits.len() > 0 && all_digits(digits) && v == decimal_value(digits)
                    && v <= limit,
                None => digits.len() == 0 || !all_digits(digits) || decimal_value(digits) > limit,
            }
        }),
{
    let ghost digits = s@.skip(from as int);
    if from == s.len() {
        return None;
    }
    let mut acc: u64 = 0;
    let mut i: usize = from;
    let mut over = false;
    while i < s.len()
        invariant
            from <= i <= s.len(),
            digits == s@.skip(from as int),
            limit <= 0x8000_0000,
            all_digits(digits.take(i - from)),
            !over ==> acc == decimal_value(digits.take(i - from)) && acc <= limit,
            over ==> decimal_value(digits.take(i - from)) > limit,
        decreases s.len() - i,
    {
        let c = s[i];
        let ghost before = digits.take(i - from);
        let ghost after = digits.take(i - from + 1);
        proof {
            assert(after.drop_last() =~= before);
        }
        if !(c >= '0' && c <= '9') {
            assert(!is_digit(digits[i - from]));
            return None;
        }
        if !over {
            let d: u64 = (c as u32 - '0' as u32) as u64;
            acc = acc * 10 + d;
            if acc > limit {
                over = true;
            }
        }
        i += 1;
    }
    assert(digits.take(i - from) =~= digits);
    if over {
        None
    } else {
        Some(acc)
    }
}

/// Read `s` as a signed 32-bit decimal number.
pub fn parse_i32(s: &[char]) -> (r: Option<i32>)
    ensures
        match r {
            Some(v) => int32_of(s@) == Some(v as int),
            None => int32_of(s@) is None,
        },
{
    let negative = s.len() > 0 && s[0] == '-';
    let from: usize = if s.len() > 0 && (s[0] == '+' || negative) {
        1
    } else {
        0
    };
    assert(s@.skip(0) =~= s@);
    if negative {
        match parse_magnitude(s, from, 0x8000_0000) {
            Some(m) => Some((-(m as i64)) as i32),
            None => None,
        }
    } else {
        match parse_magnitude(s, from, 0x7FFF_FFFF) {
            Some(m) => Some(m as i32),
            None => None,
        }
    }
}

/// Read `s` as an unsigned decimal number no greater than `max`.
fn parse_unsigned(s: &[char], max: u64) -> (r: Option<u64>)
    requires
        max <= 0x8000_0000,
    ensures
        match r {
            Some(v) => parse_decimal(s@, false, 0, max as int) == Some(v as int),
            None => parse_decimal(s@, false, 0, max as int) is None,
        },
{
    let from: usize = if s.len() > 0 && s[0] == '+' {
        1
    } else {
        0
    };
    assert(s@.skip(0) =~= s@);
    parse_magnitude(s, from, max)
}

/// Read `s` as an unsigned 16-bit decimal number.
pub fn parse_u16(s: &[char]) -> (r: Option<u16>)
    ensures
        match r {
            Some(v) => uint16_of(s@) == Some(v as int),
            None => uint16_of(s@) is None,
        },
{
    match parse_unsigned(s, 0xFFFF) {
        Some(v) => Some(v as u16),
        None => None,
    }
}

/// Read `s` as an unsigned 8-bit decimal number.
pub fn parse_u8(s: &[char]) -> (r: Option<u8>)
    ensures
        match r {
            Some(v) => uint8_of(s@) == Some(v as int),
            None => uint8_of(s@) is None,
        },
{
    match parse_unsigned(s, 0xFF) {
        Some(v) => Some(v as u8),
        None => None,
    }
}

/// Read a field of a reply as a signed 32-bit number; a `DataErr` where
/// it is none.
pub fn field_i32(field: &str) -> (r: Result<i32, MspErr>)
    ensures
        match r {
            Ok(v) => int32_of(field@) == Some(v as int),
            Err(e) => int32_of(field@) is None && e.kind() == ErrKind::Data,
        },
{
    let chars = chars_of(field);
    match parse_i32(chars.as_slice()) {
        Some(v) => Ok(v),
        None => Err(MspErr::data("invalid digit found in string")),
    }
}

/// Read a field of a reply as an unsigned 16-bit number; a `DataErr` where
/// it is none.
pub fn field_u16(field: &str) -> (r: Result<u16, MspErr>)
    ensures
        match r {
            Ok(v) => uint16_of(field@) == Some(v as int),
            Err(e) => uint16_of(field@) is None && e.kind() == ErrKind::Data,
        },
{
    let chars = chars_of(field);
    match parse_u16(chars.as_slice()) {
        Some(v) => Ok(v),
        None => Err(MspErr::data("invalid digit found in string")),
    }
}

/// Read a field of a reply as an unsigned 8-bit number; a `DataErr` where
/// it is none.
pub fn field_u8(field: &str) -> (r: Result<u8, MspErr>)
    ensures
        match r {
            Ok(v) => uint8_of(field@) == Some(v as int),
            Err(e) => uint8_of(field@) is None && e.kind() == ErrKind::Data,
        },
{
    let chars = chars_of(field);
    match parse_u8(chars.as_slice()) {
        Some(v) => Ok(v),
        None => Err(MspErr::data("invalid digit found in string")),
    }
}

} // verus!
