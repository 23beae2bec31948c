//! Numbers as bytes, the high byte first.

use vstd::arithmetic::div_mod::lemma_breakdown;
use vstd::prelude::*;

verus! {

/// The low `n` bytes of `x`, the highest of them first.
pub open spec fn be_bytes_of(x: int, n: nat) -> Seq<u8>
    decreases n,
{
    if n == 0 {
        Seq::empty()
    } else {
        be_bytes_of(x / 256, (n - 1) as nat).push((x % 256) as u8)
    }
}

/// The number that `s` holds, its first byte weighing most.
pub open spec fn be_value(s: Seq<u8>) -> int
    decreases s.len(),
{
    if s.len() == 0 {
        0
    } else {
        be_value(s.drop_last()) * 256 + s.last()
    }
}

/// 256 to the power `n`.
pub open spec fn radix(n: nat) -> int
    decreases n,
{
    if n == 0 {
        1
    } else {
        256 * radix((n - 1) as nat)
    }
}

/// Reading the bytes that were written gives the number back, as far as
/// `n` bytes hold it.
pub proof fn lemma_be_roundtrip(x: int, n: nat)
    requires
        0 <= x,
    ensures
        be_bytes_of(x, n).len() == n,
        be_value(be_bytes_of(x, n)) == x % radix(n),
    decreases n,
{
    if n > 0 {
        let high = be_bytes_of(x / 256, (n - 1) as nat);
        lemma_be_roundtrip(x / 256, (n - 1) as nat);
        assert(be_bytes_of(x, n).drop_last() =~= high);
        let r = radix((n - 1) as nat);
        lemma_radix_positive((n - 1) as nat);
        lemma_breakdown(x, 256, r);
    }
}

/// A power of 256 is positive.
proof fn lemma_radix_positive(n: nat)
    ensures
        radix(n) > 0,
    decreases n,
{
    if n > 0 {
        lemma_radix_positive((n - 1) as nat);
    }
}

/// Append the low `n` bytes of `x`.
fn push_be(v: &mut Vec<u8>, x: u64, n: usize)
    requires
        n <= 8,
    ensures
        final(v)@ == old(v)@ + be_bytes_of(x as int, n as nat),
{
    let mut low_first: Vec<u8> = Vec::new();
    let mut rest: u64 = x;
    let mut k: usize = 0;
    while k < n
        invariant
            k <= n,
            low_first@.len() == k,
            be_bytes_of(x as int, n as nat) == be_bytes_of(rest as int, (n - k) as nat)
                + low_first@.reverse(),
        decreases n - k,
    {
        low_first.push((rest % 256) as u8);
        rest = rest / 256;
        k += 1;
    }
    let mut j: usize = n;
    while j > 0
        invariant
            j <= n,
            low_first@.len() == n,
            v@ == old(v)@ + low_first@.reverse().take(n - j),
        decreases j,
    {
        j -= 1;
        v.push(low_first[j]);
    }
}

/// Append `x` as two bytes.
pub fn push_be_u16(v: &mut Vec<u8>, x: u16)
    ensures
        final(v)@ == old(v)@ + be_bytes_of(x as int, 2),
{
    push_be(v, x as u64, 2);
}

/// Append `x` as four bytes.
pub fn push_be_u32(v: &mut Vec<u8>, x: u32)
    ensures
        final(v)@ == old(v)@ + be_bytes_of(x as int, 4),
{
    push_be(v, x as u64, 4);
}

/// Append `x` as eight bytes.
pub fn push_be_u64(v: &mut Vec<u8>, x: u64)
    ensures
        final(v)@ == old(v)@ + be_bytes_of(x as int, 8),
{
    push_be(v, x, 8);
}

/// The eight bytes of `data` from `at` on as a number.
pub fn be_u64_at(data: &[u8], at: usize) -> (x: u64)
    requires
        at + 8 <= data.len(),
    ensures
        x == be_value(data@.subrange(at as int, at + 8)),
{
    let ghost s = data@.subrange(at as int, at + 8);
    let mut x: u64 = 0;
    let mut i: usize = 0;
    while i < 8
        invariant
            i <= 8,
            at + 8 <= data.len(),
            s == data@.subrange(at as int, at + 8),
            x == be_value(s.take(i as int)),
            x < radix(i as nat),
        decreases 8 - i,
    {
        proof {
            reveal_with_fuel(radix, 9);
            assert(s.take(i + 1).drop_last() =~= s.take(i as int));
        }
        x = x * 256 + data[at + i] as u64;
        i += 1;
    }
    assert(s.take(8) =~= s);
    x
}

} // verus!
