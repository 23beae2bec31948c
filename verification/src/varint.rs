//! VarInt: a signed 32-bit number in one to five bytes, seven bits in each,
//! the lowest first, with the high bit of a byte saying that another follows.

use crate::error::{ErrKind, MspErr};
use vstd::prelude::*;

verus! {

/// The unsigned 32-bit number with the same two's complement bit pattern as `n`.
pub open spec fn to_unsigned(n: int) -> int {
    if n < 0 {
        n + 0x1_0000_0000
    } else {
        n
    }
}

/// The signed 32-bit number with the same two's complement bit pattern as `u`.
pub open spec fn to_signed(u: int) -> int {
    if u >= 0x8000_0000 {
        u - 0x1_0000_0000
    } else {
        u
    }
}

/// Groups of seven bits, lowest group first; every byte but the last has its
/// high bit set.
pub open spec fn encode_unsigned(u: int) -> Seq<u8>
    decreases u,
{
    if u < 128 {
        seq![u as u8]
    } else {
        seq![(u % 128 + 128) as u8] + encode_unsigned(u / 128)
    }
}

/// The VarInt encoding of `n`.
pub open spec fn varint_bytes(n: i32) -> Seq<u8> {
    encode_unsigned(to_unsigned(n as int))
}

/// The low seven bits of each byte, the first byte weighing least.
pub open spec fn payload_sum(s: Seq<u8>) -> int
    decreases s.len(),
{
    if s.len() == 0 {
        0
    } else {
        (s[0] % 128) + 128 * payload_sum(s.drop_first())
    }
}

/// What the decoder accepts: one to five bytes, the last without the
/// continuation flag.
pub open spec fn varint_well_formed(s: Seq<u8>) -> bool {
    1 <= s.len() <= 5 && s.last() < 128
}

/// The number that `s` stands for; bits beyond the 32nd are dropped.
pub open spec fn varint_value(s: Seq<u8>) -> int {
    to_signed(payload_sum(s) % 0x1_0000_0000)
}

/// The decoder as a function: `None` where it rejects.
pub open spec fn varint_decoded(s: Seq<u8>) -> Option<int> {
    if varint_well_formed(s) {
        Some(varint_value(s))
    } else {
        None
    }
}

/// The shape of an encoding: its last byte alone is below 128, its groups
/// add up to the number, and its length goes with the size of the number.
proof fn lemma_encode_shape(u: int)
    requires
        0 <= u,
    ensures
        encode_unsigned(u).len() >= 1,
        encode_unsigned(u).last() < 128,
        payload_sum(encode_unsigned(u)) == u,
        u < 128 <==> encode_unsigned(u).len() == 1,
        u < 0x1_0000_0000 ==> encode_unsigned(u).len() <= 5,
        0x1000_0000 <= u < 0x1_0000_0000 ==> encode_unsigned(u).len() == 5,
    decreases u,
{
    reveal_with_fuel(weight, 5);
    if u >= 128 {
        let head = seq![(u % 128 + 128) as u8];
        let tail = encode_unsigned(u / 128);
        lemma_encode_shape(u / 128);
        assert((head + tail).drop_first() =~= tail);
        if u < 0x1_0000_0000 {
            lemma_encode_len_bound(u / 128, 4);
        }
        if 0x1000_0000 <= u < 0x1_0000_0000 {
            lemma_encode_len_exact(u / 128, 4);
        }
    } else {
        let one = seq![u as u8];
        assert(payload_sum(one) == one[0] % 128 + 128 * payload_sum(one.drop_first()));
    }
}

/// 128 to the power `k`.
spec fn weight(k: nat) -> int
    decreases k,
{
    if k == 0 {
        1
    } else {
        128 * weight((k - 1) as nat)
    }
}

/// A number below 128 to the power `k` takes at most `k` bytes.
proof fn lemma_encode_len_bound(u: int, k: nat)
    requires
        k >= 1,
        0 <= u < weight(k),
    ensures
        encode_unsigned(u).len() <= k,
    decreases k,
{
    reveal_with_fuel(weight, 2);
    if u >= 128 {
        lemma_encode_len_bound(u / 128, (k - 1) as nat);
    }
}

/// A number between two powers of 128 takes as many bytes as the higher says.
proof fn lemma_encode_len_exact(u: int, k: nat)
    requires
        k >= 1,
        weight((k - 1) as nat) <= u < weight(k),
    ensures
        encode_unsigned(u).len() == k,
    decreases k,
{
    if k > 1 {
        lemma_encode_len_exact(u / 128, (k - 1) as nat);
    }
}

/// Decoding what was encoded gives the number back.
pub proof fn lemma_varint_roundtrip(n: i32)
    ensures
        varint_decoded(varint_bytes(n)) == Some(n as int),
{
    lemma_encode_shape(to_unsigned(n as int));
}

/// An encoding has one byte exactly for 0 to 127, five bytes for every
/// negative number, and never more than five.
pub proof fn lemma_varint_length(n: i32)
    ensures
        1 <= varint_bytes(n).len() <= 5,
        varint_bytes(n).len() == 1 <==> 0 <= n <= 127,
        n < 0 ==> varint_bytes(n).len() == 5,
{
    lemma_encode_shape(to_unsigned(n as int));
}

/// Encode the given number as a VarInt.
pub fn encode_varint(num: i32) -> (result: Vec<u8>)
    ensures
        result@ == varint_bytes(num),
{
    assert(num as u32 == (if num < 0 {
        num + 0x1_0000_0000
    } else {
        num as int
    })) by (bit_vector);
    let mut rest: u32 = #[verifier::truncate] (num as u32);
    let mut result: Vec<u8> = Vec::new();
    while (rest & !0x7Fu32) != 0
        invariant
            result@ + encode_unsigned(rest as int) == varint_bytes(num),
        decreases rest,
    {
        assert((rest & !0x7Fu32) != 0 ==> rest >= 128) by (bit_vector);
        assert(((rest & 0x7Fu32) | 0x80u32) == rest % 128 + 128) by (bit_vector);
        assert(rest >> 7u32 == rest / 128) by (bit_vector);
        result.push(((rest & 0x7F) | 0x80) as u8);
        rest = rest >> 7;
    }
    assert((rest & !0x7Fu32) == 0 ==> rest < 128) by (bit_vector);
    result.push(rest as u8);
    result
}

/// The sum from `i` on is the group at `i` and 128 times the sum after it.
proof fn lemma_payload_sum_split(s: Seq<u8>, i: int)
    requires
        0 <= i < s.len(),
    ensures
        payload_sum(s.skip(i)) == (s[i] % 128) + 128 * payload_sum(s.skip(i + 1)),
{
    assert(s.skip(i).drop_first() =~= s.skip(i + 1));
}

/// Decode the given VarInt as a number.
///
/// Fails with `DataErr` on an empty input, on more than five bytes, and where
/// the last byte still has the continuation flag.
pub fn decode_varint(arr: &Vec<u8>) -> (result: Result<i32, MspErr>)
    ensures
        match result {
            Ok(v) => varint_decoded(arr@) == Some(v as int),
            Err(e) => varint_decoded(arr@) is None && e.kind() == ErrKind::Data,
        },
{
    let len = arr.len();
    if len > 5 {
        return Err(MspErr::data("VarInts are never longer than 5 bytes"));
    }
    if len == 0 {
        return Err(MspErr::data("VarInts is empty"));
    }
    let last = arr[len - 1];
    assert(last & 0x80 != 0 <==> last >= 128) by (bit_vector);
    if last & 0x80 != 0 {
        return Err(MspErr::data("Invalid VarInt data"));
    }
    let mut acc: u64 = 0;
    let mut i: usize = 0;
    proof {
        assert(arr@.skip(0) =~= arr@);
    }
    while i < len
        invariant
            i <= len <= 5,
            len == arr.len(),
            acc < weight(i as nat),
            payload_sum(arr@) == acc + weight(i as nat) * payload_sum(arr@.skip(i as int)),
        decreases len - i,
    {
        let group: u64 = (arr[i] & 0x7F) as u64;
        let shift: u64 = 7 * (i as u64);
        let b = arr[i];
        proof {
            reveal_with_fuel(weight, 6);
            lemma_payload_sum_split(arr@, i as int);
            assert(b & 0x7F == b % 128) by (bit_vector);
            assert(shift <= 28 && group < 128 && acc < (1u64 << shift) ==> (acc | (group << shift))
                == acc + group * (1u64 << shift) && (acc | (group << shift)) < (1u64 << ((shift
                + 7) as u64))) by (bit_vector);
            assert(1u64 << 0u64 == 1 && 1u64 << 7u64 == 128 && 1u64 << 14u64 == 16384 && 1u64
                << 21u64 == 2097152 && 1u64 << 28u64 == 268435456 && 1u64 << 35u64
                == 34359738368) by (bit_vector);
            assert(weight(i as nat) == 1u64 << shift);
            assert(weight(i as nat) * (group + 128 * payload_sum(arr@.skip(i + 1)))
                == weight(i as nat) * group + weight((i + 1) as nat) * payload_sum(
                arr@.skip(i + 1),
            )) by (nonlinear_arith)
                requires
                    weight((i + 1) as nat) == 128 * weight(i as nat),
            ;
        }
        acc = acc | (group << shift);
        i += 1;
    }
    assert(acc as u32 == acc % 0x1_0000_0000) by (bit_vector);
    let low: u32 = #[verifier::truncate] (acc as u32);
    assert(low as i32 == (if low >= 0x8000_0000 {
        low - 0x1_0000_0000
    } else {
        low as int
    })) by (bit_vector);
    Ok(#[verifier::truncate] (low as i32))
}

/// The position of the first byte from `i` on that has no continuation
/// flag, if there is one.
pub open spec fn terminator(s: Seq<u8>, i: int) -> Option<int>
    decreases s.len() - i,
{
    if i < 0 || i >= s.len() {
        None
    } else if s[i] < 128 {
        Some(i)
    } else {
        terminator(s, i + 1)
    }
}

/// The VarInt that begins at `start` in a stream of which `s` has arrived so
/// far: how many bytes it takes and the number. `Ok(None)` where the stream
/// has not brought its last byte yet; a `Data` error where it takes more than
/// five bytes.
pub open spec fn stream_varint(s: Seq<u8>, start: int) -> Result<Option<(usize, i32)>, ErrKind> {
    match terminator(s, start) {
        None => Ok(None),
        Some(end) => match varint_decoded(s.subrange(start, end + 1)) {
            Some(v) => Ok(Some(((end + 1 - start) as usize, v as i32))),
            None => Err(ErrKind::Data),
        },
    }
}

/// `terminator` gives the first byte from `i` on without the continuation
/// flag, and nothing only where every byte from `i` on has it.
pub proof fn lemma_terminator(s: Seq<u8>, i: int)
    requires
        0 <= i,
    ensures
        match terminator(s, i) {
            Some(end) => i <= end < s.len() && s[end] < 128 && forall|k: int|
                i <= k < end ==> s[k] >= 128,
            None => forall|k: int| i <= k < s.len() ==> s[k] >= 128,
        },
    decreases s.len() - i,
{
    if i < s.len() && s[i] >= 128 {
        lemma_terminator(s, i + 1);
    }
}

/// Read one VarInt from a stream of bytes: one byte after another from
/// `start` on, up to the first without the continuation flag, and then
/// decoded. Gives the number of bytes taken and the value; `None` where
/// `source` ends before the VarInt does.
pub fn decode_varint_from_socket(source: &[u8], start: usize) -> (r: Result<
    Option<(usize, i32)>,
    MspErr,
>)
    ensures
        match r {
            Ok(found) => stream_varint(source@, start as int) == Ok::<_, ErrKind>(found),
            Err(e) => stream_varint(source@, start as int) == Err::<Option<(usize, i32)>, _>(
                e.kind(),
            ),
        },
{
    let mut buffer: Vec<u8> = Vec::new();
    let mut i: usize = start;
    if start > source.len() {
        return Ok(None);
    }
    while i < source.len()
        invariant
            start <= i <= source.len(),
            buffer@ == source@.subrange(start as int, i as int),
            terminator(source@, i as int) == terminator(source@, start as int),
        decreases source.len() - i,
    {
        let buf = source[i];
        buffer.push(buf);
        assert(buf & 0x80 == 0 <==> buf < 128) by (bit_vector);
        assert(buffer@ =~= source@.subrange(start as int, i + 1));
        if buf & 0x80 == 0 {
            return match decode_varint(&buffer) {
                Ok(v) => Ok(Some((buffer.len(), v))),
                Err(e) => Err(e),
            };
        }
        i += 1;
    }
    Ok(None)
}

/// A VarInt that is followed by anything is read back from the stream, with
/// the number of bytes that its encoding has.
pub proof fn lemma_stream_roundtrip(s: Seq<u8>, start: int, n: i32)
    requires
        0 <= start,
        start + varint_bytes(n).len() <= s.len(),
        s.subrange(start, start + varint_bytes(n).len()) == varint_bytes(n),
    ensures
        stream_varint(s, start) == Ok::<_, ErrKind>(Some((varint_bytes(n).len() as usize, n))),
{
    let enc = varint_bytes(n);
    lemma_encode_flags(to_unsigned(n as int));
    let last = start + enc.len() - 1;
    lemma_terminator(s, start);
    lemma_varint_roundtrip(n);
}

/// Every byte of an encoding but the last has the continuation flag.
proof fn lemma_encode_flags(u: int)
    requires
        0 <= u,
    ensures
        forall|k: int| 0 <= k < encode_unsigned(u).len() - 1 ==> encode_unsigned(u)[k] >= 128,
    decreases u,
{
    if u >= 128 {
        lemma_encode_flags(u / 128);
        let head = seq![(u % 128 + 128) as u8];
        let tail = encode_unsigned(u / 128);
    }
}

} // verus!
