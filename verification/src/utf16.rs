//! UTF-16 code units: encoding of text, and decoding that replaces what is
//! not well formed.

use crate::error::{ErrKind, MspErr};
use crate::text::string_of;
use vstd::prelude::*;

verus! {

/// `char::from_u32` gives the character with code `u` where `u` is a Unicode
/// scalar value, and nothing for a surrogate or a number above 0x10FFFF.
pub assume_specification[ char::from_u32 ](u: u32) -> (c: Option<char>)
    ensures
        c == (if u <= 0xD7FF || (0xE000 <= u <= 0x10FFFF) {
            Some(u as char)
        } else {
            None
        }),
;

/// Whether `u` is the first half of a surrogate pair.
pub open spec fn is_high_surrogate(u: u16) -> bool {
    0xD800 <= u <= 0xDBFF
}

/// Whether `u` is the second half of a surrogate pair.
pub open spec fn is_low_surrogate(u: u16) -> bool {
    0xDC00 <= u <= 0xDFFF
}

/// The character that the surrogate pair `high`, `low` stands for.
pub open spec fn pair_scalar(high: u16, low: u16) -> char {
    (0x10000 + (high - 0xD800) * 0x400 + (low - 0xDC00)) as char
}

/// The code units of one character: itself below 0x10000, a surrogate pair
/// from there on.
pub open spec fn utf16_units(c: char) -> Seq<u16> {
    let u = c as u32;
    if u < 0x10000 {
        seq![u as u16]
    } else {
        seq![(0xD800 + (u - 0x10000) / 0x400) as u16, (0xDC00 + (u - 0x10000) % 0x400) as u16]
    }
}

/// The UTF-16 encoding of `s`.
pub open spec fn utf16_of(s: Seq<char>) -> Seq<u16>
    decreases s.len(),
{
    if s.len() == 0 {
        Seq::empty()
    } else {
        utf16_of(s.drop_last()) + utf16_units(s.last())
    }
}

/// The replacement character U+FFFD.
pub open spec fn replacement() -> char {
    '\u{FFFD}'
}

/// How many code units the first character of `units` takes: two for a
/// surrogate pair, else one.
pub open spec fn first_width(units: Seq<u16>) -> int {
    if units.len() >= 2 && is_high_surrogate(units[0]) && is_low_surrogate(units[1]) {
        2
    } else {
        1
    }
}

/// The first character of `units`; a surrogate without its partner reads as
/// the replacement character.
pub open spec fn first_char(units: Seq<u16>) -> char {
    if first_width(units) == 2 {
        pair_scalar(units[0], units[1])
    } else if is_high_surrogate(units[0]) || is_low_surrogate(units[0]) {
        replacement()
    } else {
        units[0] as char
    }
}

/// The text that `units` stand for, each unpaired surrogate replaced by
/// U+FFFD.
pub open spec fn utf16_lossy(units: Seq<u16>) -> Seq<char>
    decreases units.len(),
{
    if units.len() == 0 {
        Seq::empty()
    } else {
        seq![first_char(units)] + utf16_lossy(units.skip(first_width(units)))
    }
}

/// Whether every surrogate in `units` is part of a pair.
pub open spec fn utf16_well_formed(units: Seq<u16>) -> bool
    decreases units.len(),
{
    if units.len() == 0 {
        true
    } else if first_width(units) == 2 {
        utf16_well_formed(units.skip(2))
    } else {
        !is_high_surrogate(units[0]) && !is_low_surrogate(units[0]) && utf16_well_formed(
            units.drop_first(),
        )
    }
}

/// The 16-bit numbers that `bytes` hold, two bytes each, the high byte first.
/// A last byte without a partner is left out.
pub open spec fn be_units(bytes: Seq<u8>) -> Seq<u16> {
    Seq::new((bytes.len() / 2) as nat, |i: int| (bytes[2 * i] * 256 + bytes[2 * i + 1]) as u16)
}

/// The bytes of `units`, two for each, the high byte first.
pub open spec fn be_bytes(units: Seq<u16>) -> Seq<u8> {
    Seq::new(
        2 * units.len(),
        |i: int|
            if i % 2 == 0 {
                (units[i / 2] / 256) as u8
            } else {
                (units[i / 2] % 256) as u8
            },
    )
}

/// The encoding of two texts in a row is their encodings in a row.
proof fn lemma_utf16_of_concat(a: Seq<char>, b: Seq<char>)
    ensures
        utf16_of(a + b) == utf16_of(a) + utf16_of(b),
    decreases b.len(),
{
    if b.len() > 0 {
        assert((a + b).drop_last() =~= a + b.drop_last());
        lemma_utf16_of_concat(a, b.drop_last());
    }
}

/// Encoding the decoded text gives well-formed code units back.
pub proof fn lemma_utf16_roundtrip(units: Seq<u16>)
    requires
        utf16_well_formed(units),
    ensures
        utf16_of(utf16_lossy(units)) == units,
    decreases units.len(),
{
    if units.len() > 0 {
        let w = first_width(units);
        let c = first_char(units);
        let rest = units.skip(w);
        lemma_utf16_roundtrip(rest);
        lemma_utf16_of_concat(seq![c], utf16_lossy(rest));
        assert(seq![c].drop_last() =~= Seq::<char>::empty());
        assert(utf16_of(Seq::<char>::empty()) =~= Seq::<u16>::empty());
    }
}

/// The bytes of the numbers that an even number of bytes hold are those
/// bytes.
pub proof fn lemma_be_units_roundtrip(bytes: Seq<u8>)
    requires
        bytes.len() % 2 == 0,
    ensures
        be_bytes(be_units(bytes)) == bytes,
{
    let back = be_bytes(be_units(bytes));
}

/// The text that is read from an even number of bytes holds the code units
/// that the bytes hold, as long as every surrogate among them is part of a
/// pair: encoded again, the text gives the bytes back.
pub proof fn lemma_utf16_text_keeps_code_units(bytes: Seq<u8>)
    requires
        bytes.len() % 2 == 0,
        utf16_well_formed(be_units(bytes)),
    ensures
        utf16_of(utf16_lossy(be_units(bytes))) == be_units(bytes),
        be_bytes(utf16_of(utf16_lossy(be_units(bytes)))) == bytes,
{
    lemma_utf16_roundtrip(be_units(bytes));
}

/// Encode `s` as UTF-16.
pub fn encode_utf16(s: &[char]) -> (units: Vec<u16>)
    ensures
        units@ == utf16_of(s@),
{
    let mut units: Vec<u16> = Vec::new();
    let mut i: usize = 0;
    while i < s.len()
        invariant
            i <= s.len(),
            units@ == utf16_of(s@.take(i as int)),
        decreases s.len() - i,
    {
        let u: u32 = s[i] as u32;
        assert(s@.take(i + 1).drop_last() =~= s@.take(i as int));
        if u < 0x10000 {
            units.push(u as u16);
        } else {
            let v: u32 = u - 0x10000;
            units.push((0xD800 + v / 0x400) as u16);
            units.push((0xDC00 + v % 0x400) as u16);
        }
        i += 1;
    }
    assert(s@.take(i as int) =~= s@);
    units
}

/// Decode `units` as UTF-16; every surrogate without its partner becomes
/// U+FFFD.
pub fn decode_utf16_lossy(units: &[u16]) -> (text: Vec<char>)
    ensures
        text@ == utf16_lossy(units@),
{
    let mut text: Vec<char> = Vec::new();
    let mut i: usize = 0;
    assert(units@.skip(0) =~= units@);
    while i < units.len()
        invariant
            i <= units.len(),
            text@ + utf16_lossy(units@.skip(i as int)) == utf16_lossy(units@),
        decreases units.len() - i,
    {
        let u = units[i];
        let ghost rest = units@.skip(i as int);
        if 0xD800 <= u && u <= 0xDBFF && i + 1 < units.len() && 0xDC00 <= units[i + 1] && units[i
            + 1] <= 0xDFFF {
            let l = units[i + 1];
            let v: u32 = 0x10000 + (u as u32 - 0xD800) * 0x400 + (l as u32 - 0xDC00);
            let c = char::from_u32(v).unwrap();
            text.push(c);
            assert(rest.skip(2) =~= units@.skip(i + 2));
            i += 2;
        } else {
            let c = if 0xD800 <= u && u <= 0xDFFF {
                '\u{FFFD}'
            } else {
                char::from_u32(u as u32).unwrap()
            };
            text.push(c);
            assert(rest.skip(1) =~= units@.skip(i + 1));
            i += 1;
        }
    }
    text
}

/// Read `bufs` as UTF-16 with the high byte first.
///
/// Fails with `DataErr` on an odd number of bytes.
pub fn bufs_to_utf16_str(bufs: &[u8]) -> (r: Result<String, MspErr>)
    ensures
        match r {
            Ok(s) => bufs@.len() % 2 == 0 && s@ == utf16_lossy(be_units(bufs@)),
            Err(e) => bufs@.len() % 2 != 0 && e.kind() == ErrKind::Data,
        },
{
    if bufs.len() % 2 != 0 {
        return Err(
            MspErr::data("Conversion from UTF-16 to string failed. Expected length to be even"),
        );
    }
    let mut units: Vec<u16> = Vec::new();
    let mut i: usize = 0;
    while i < bufs.len()
        invariant
            i <= bufs.len(),
            i % 2 == 0,
            bufs.len() % 2 == 0,
            units@ == be_units(bufs@.take(i as int)),
        decreases bufs.len() - i,
    {
        let unit: u16 = (bufs[i] as u16) * 256 + bufs[i + 1] as u16;
        units.push(unit);
        i += 2;
    }
    assert(bufs@.take(i as int) =~= bufs@);
    let text = decode_utf16_lossy(units.as_slice());
    Ok(string_of(text.as_slice()))
}

} // verus!
