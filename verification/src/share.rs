//! What the protocols share: the clock, and the cursor over a datagram.

pub use crate::utf16::bufs_to_utf16_str;

use crate::error::{ErrKind, MspErr};
use crate::text::{lemma_first_index, split_spec, string_views};
use crate::utf8::{from_utf8_lossy, lossy_text};
use std::time::{SystemTime, UNIX_EPOCH};
use vstd::prelude::*;
use vstd::utf8::{decode_utf8, valid_utf8};

verus! {

/// Reads the system clock with `SystemTime::now` and takes, with
/// `duration_since` and `as_millis`, the milliseconds since the Unix epoch,
/// or nothing where the clock stands before it. Nothing is promised of the
/// number: it is another one at each call.
#[verifier::external_body]
fn epoch_millis() -> Option<u128> {
    match SystemTime::now().duration_since(UNIX_EPOCH) {
        Ok(t) => Some(t.as_millis()),
        Err(_) => None,
    }
}

/// What a clock reading becomes: the milliseconds where there are any and
/// they fit 64 bits, else nothing.
pub open spec fn time_of_reading(millis: Option<u128>) -> Option<u64> {
    match millis {
        Some(t) if t <= u64::MAX => Some(t as u64),
        _ => None,
    }
}

/// Turn a clock reading into a timestamp; an `InternalErr` where there is no
/// reading or it does not fit 64 bits.
pub fn time_from_reading(millis: Option<u128>) -> (r: Result<u64, MspErr>)
    ensures
        match r {
            Ok(t) => time_of_reading(millis) == Some(t),
            Err(e) => time_of_reading(millis) is None && e.kind() == ErrKind::Internal,
        },
{
    match millis {
        Some(t) => {
            if t > u64::MAX as u128 {
                Err(
                    MspErr::internal(
                        "Failed to obtain current time. It should not exceed u64::MAX",
                    ),
                )
            } else {
                Ok(t as u64)
            }
        },
        None => Err(MspErr::internal("The system clock is set before the Unix epoch")),
    }
}

/// The current time in milliseconds since the Unix epoch; an `InternalErr`
/// where the clock cannot be read as `time_from_reading` wants it.
pub fn get_server_current_time() -> (r: Result<u64, MspErr>)
    ensures
        r matches Err(e) ==> e.kind() == ErrKind::Internal,
{
    time_from_reading(epoch_millis())
}

/// Whether `port` lies outside the range of well-known ports.
pub fn is_valid_port(port: u16) -> (b: bool)
    ensures
        b == (port >= 1024),
{
    port >= 1024
}

/// The byte of `data` at `i`. Past the end every byte reads as zero, as in a
/// zero-filled receive buffer that is longer than the datagram.
pub open spec fn byte_at(data: Seq<u8>, i: int) -> u8 {
    if 0 <= i < data.len() {
        data[i]
    } else {
        0
    }
}

/// The bytes at the positions from `from` up to, not including, `to`.
pub open spec fn window(data: Seq<u8>, from: int, to: int) -> Seq<u8> {
    Seq::new((to - from) as nat, |k: int| byte_at(data, from + k))
}

/// The first position from `i` on that holds a zero byte.
pub open spec fn next_nul(data: Seq<u8>, i: int) -> int
    decreases data.len() - i,
{
    if i < 0 || i >= data.len() || data[i] == 0 {
        i
    } else {
        next_nul(data, i + 1)
    }
}

/// Whether the bytes at `i` and after it are both zero.
pub open spec fn double_nul_at(data: Seq<u8>, i: int) -> bool {
    byte_at(data, i) == 0 && byte_at(data, i + 1) == 0
}

/// The first position from `i` on that holds a zero byte followed by
/// another.
pub open spec fn next_double_nul(data: Seq<u8>, i: int) -> int
    decreases data.len() - i,
{
    if i < 0 || i >= data.len() || double_nul_at(data, i) {
        i
    } else {
        next_double_nul(data, i + 1)
    }
}

/// Whether `b` is a byte that the repair puts `0xC2` in front of, unless one
/// stands there already.
pub open spec fn needs_lead(b: u8) -> bool {
    0x80 <= b <= 0xBF
}

/// `raw` with `0xC2` put before each byte from `0x80` to `0xBF` that does not
/// follow a `0xC2` in what has been built so far. This mends the section sign
/// and its neighbours where a server sends them as single bytes; it is no
/// general repair of UTF-8.
pub open spec fn repaired(raw: Seq<u8>) -> Seq<u8>
    decreases raw.len(),
{
    if raw.len() == 0 {
        Seq::empty()
    } else {
        let before = repaired(raw.drop_last());
        let b = raw.last();
        if needs_lead(b) && !(before.len() > 0 && before.last() == 0xC2) {
            before.push(0xC2).push(b)
        } else {
            before.push(b)
        }
    }
}

/// The bytes of the null-terminated string that starts at `i`, mended.
pub open spec fn nt_bytes(data: Seq<u8>, i: int) -> Seq<u8> {
    repaired(window(data, i, next_nul(data, i)))
}

/// The text of the null-terminated string that starts at `i`: what its
/// mended bytes encode where they are valid UTF-8.
pub open spec fn nt_text(data: Seq<u8>, i: int) -> Seq<char> {
    lossy_text(nt_bytes(data, i))
}

/// The position after the null-terminated string that starts at `i`.
pub open spec fn nt_end(data: Seq<u8>, i: int) -> int {
    next_nul(data, i) + 1
}

/// The pieces of `raw` between zero bytes; none where `raw` is empty.
pub open spec fn group_pieces(raw: Seq<u8>) -> Seq<Seq<u8>> {
    if raw.len() == 0 {
        Seq::empty()
    } else {
        split_spec(raw, 0u8)
    }
}

/// Each piece as text.
pub open spec fn lossy_all(pieces: Seq<Seq<u8>>) -> Seq<Seq<char>> {
    Seq::new(pieces.len(), |i: int| lossy_text(pieces[i]))
}

/// The bytes of the strings of the group that starts at `i`: what stands
/// before the first double zero byte, cut at each single zero byte.
pub open spec fn group_bytes(data: Seq<u8>, i: int) -> Seq<Seq<u8>> {
    group_pieces(window(data, i, next_double_nul(data, i)))
}

/// The strings of the group that starts at `i`, each as text.
pub open spec fn group_texts(data: Seq<u8>, i: int) -> Seq<Seq<char>> {
    lossy_all(group_bytes(data, i))
}

/// The position after the group that starts at `i`.
pub open spec fn group_end(data: Seq<u8>, i: int) -> int {
    next_double_nul(data, i) + 2
}

/// Strings that are the pieces as text are, each whose piece is valid UTF-8,
/// the text that the piece encodes.
proof fn lemma_valid_pieces(group: Seq<String>, pieces: Seq<Seq<u8>>)
    requires
        string_views(group) == lossy_all(pieces),
    ensures
        group.len() == pieces.len(),
        forall|k: int|
            0 <= k < group.len() && valid_utf8(pieces[k]) ==> (#[trigger] group[k])@
                == decode_utf8(pieces[k]),
{
    assert(string_views(group).len() == group.len());
    assert(lossy_all(pieces).len() == pieces.len());
    assert forall|k: int| 0 <= k < group.len() && valid_utf8(pieces[k]) implies (
    #[trigger] group[k])@ == decode_utf8(pieces[k]) by {
        assert(string_views(group)[k] == lossy_all(pieces)[k]);
    }
}

/// One string more in the group is one piece more as text.
proof fn lemma_push_text(group: Seq<String>, text: String, done: Seq<Seq<u8>>, piece: Seq<u8>)
    requires
        string_views(group) == lossy_all(done),
        text@ == lossy_text(piece),
    ensures
        string_views(group.push(text)) == lossy_all(done.push(piece)),
{
    let a = string_views(group.push(text));
    let b = lossy_all(done.push(piece));
    assert(lossy_all(done).len() == done.len());
    assert forall|i: int| 0 <= i < a.len() implies a[i] == b[i] by {
        if i < group.len() {
            assert(string_views(group)[i] == lossy_all(done)[i]);
        }
    }
}

/// `next_nul` gives a position from `i` on that reads as zero, the first of
/// them, and none beyond the end of the datagram unless `i` lies there.
pub proof fn lemma_next_nul(data: Seq<u8>, i: int)
    requires
        0 <= i,
    ensures
        i <= next_nul(data, i),
        next_nul(data, i) <= if i <= data.len() { data.len() as int } else { i },
        byte_at(data, next_nul(data, i)) == 0,
        forall|k: int| i <= k < next_nul(data, i) ==> byte_at(data, k) != 0,
    decreases data.len() - i,
{
    if i < data.len() && data[i] != 0 {
        lemma_next_nul(data, i + 1);
    }
}

/// `next_double_nul` gives a position from `i` on at which two zero bytes
/// stand, the first of them, and none beyond the end of the datagram unless
/// `i` lies there.
pub proof fn lemma_next_double_nul(data: Seq<u8>, i: int)
    requires
        0 <= i,
    ensures
        i <= next_double_nul(data, i),
        next_double_nul(data, i) <= if i <= data.len() { data.len() as int } else { i },
        double_nul_at(data, next_double_nul(data, i)),
        forall|k: int| i <= k < next_double_nul(data, i) ==> !double_nul_at(data, k),
    decreases data.len() - i,
{
    if i < data.len() && !double_nul_at(data, i) {
        lemma_next_double_nul(data, i + 1);
    }
}

/// A cursor over one received datagram.
///
/// The index only moves where a method says so; the datagram never changes.
/// A position past the end of the datagram reads as zero.
pub struct UdpReader {
    data: Vec<u8>,
    current_idx: usize,
}

impl UdpReader {
    /// The datagram under the cursor.
    pub closed spec fn datagram(&self) -> Seq<u8> {
        self.data@
    }

    /// The position of the next read.
    pub closed spec fn index(&self) -> int {
        self.current_idx as int
    }

    /// The later of the index and the datagram's end: no read of a string
    /// takes the index more than one position beyond it.
    pub open spec fn reach(&self) -> int {
        if self.index() > self.datagram().len() {
            self.index()
        } else {
            self.datagram().len() as int
        }
    }

    /// Whether an index `n` positions beyond `reach` is still a `usize`.
    pub open spec fn has_room(&self, n: int) -> bool {
        self.reach() + n <= usize::MAX
    }

    /// A cursor over `data` that stands at `current_idx`.
    pub fn create_with_idx(data: Vec<u8>, current_idx: usize) -> (r: Self)
        ensures
            r.datagram() == data@,
            r.index() == current_idx,
    {
        Self { data, current_idx }
    }

    /// The position of the next read.
    pub fn current_idx(&self) -> (i: usize)
        ensures
            i == self.index(),
    {
        self.current_idx
    }

    /// Move the cursor to `idx`.
    pub fn set_current_idx(&mut self, idx: usize)
        ensures
            final(self).index() == idx,
            final(self).datagram() == old(self).datagram(),
    {
        self.current_idx = idx;
    }

    /// Skip `idx` bytes.
    pub fn set_current_idx_forward(&mut self, idx: usize)
        requires
            old(self).index() + idx <= usize::MAX,
        ensures
            final(self).index() == old(self).index() + idx,
            final(self).datagram() == old(self).datagram(),
    {
        self.current_idx += idx;
    }

    /// Go back `idx` bytes. Fails with `DataErr`, and moves nothing, where
    /// that would pass the start.
    pub fn set_current_idx_retreat(&mut self, idx: usize) -> (r: Result<(), MspErr>)
        ensures
            final(self).datagram() == old(self).datagram(),
            match r {
                Ok(_) => idx <= old(self).index() && final(self).index() == old(self).index()
                    - idx,
                Err(e) => idx > old(self).index() && final(self).index() == old(self).index()
                    && e.kind() == ErrKind::Data,
            },
    {
        if self.current_idx < idx {
            return Err(MspErr::data("retreat cannot be greater than current index"));
        }
        self.current_idx -= idx;
        Ok(())
    }

    /// The byte at the cursor.
    fn byte_here(&self) -> (b: u8)
        ensures
            b == byte_at(self.datagram(), self.index()),
    {
        if self.current_idx < self.data.len() {
            self.data[self.current_idx]
        } else {
            0
        }
    }

    /// The byte at the cursor; the cursor moves past it.
    fn next_byte(&mut self) -> (b: u8)
        requires
            old(self).index() < usize::MAX,
        ensures
            b == byte_at(old(self).datagram(), old(self).index()),
            final(self).index() == old(self).index() + 1,
            final(self).datagram() == old(self).datagram(),
    {
        let b = self.byte_here();
        self.current_idx += 1;
        b
    }

    /// The byte at the cursor; the cursor moves past it where `consume`.
    pub fn read(&mut self, consume: bool) -> (r: Result<u8, MspErr>)
        requires
            old(self).index() < usize::MAX,
        ensures
            r matches Ok(b) && b == byte_at(old(self).datagram(), old(self).index()),
            final(self).index() == old(self).index() + if consume { 1int } else { 0 },
            final(self).datagram() == old(self).datagram(),
    {
        let b = self.byte_here();
        if consume {
            self.current_idx += 1;
        }
        Ok(b)
    }

    /// The next `size` bytes; the cursor moves past them.
    pub fn read_bufs(&mut self, size: usize) -> (r: Result<Vec<u8>, MspErr>)
        requires
            old(self).index() + size <= usize::MAX,
        ensures
            r matches Ok(bytes) && bytes@ == window(
                old(self).datagram(),
                old(self).index(),
                old(self).index() + size,
            ),
            final(self).index() == old(self).index() + size,
            final(self).datagram() == old(self).datagram(),
    {
        let ghost data = self.datagram();
        let ghost start = self.index();
        let mut buf_vec: Vec<u8> = Vec::new();
        let mut left = size;
        while left > 0
            invariant
                self.datagram() == data,
                start <= self.index(),
                self.index() + left == start + size,
                self.index() + left <= usize::MAX,
                buf_vec@ == window(data, start, self.index()),
            decreases left,
        {
            let b = self.next_byte();
            buf_vec.push(b);
            left -= 1;
        }
        Ok(buf_vec)
    }

    /// Two bytes as a 16-bit number, the high byte first.
    pub fn read_port(&mut self) -> (r: Result<u16, MspErr>)
        requires
            old(self).index() + 2 <= usize::MAX,
        ensures
            r matches Ok(port) && port == byte_at(old(self).datagram(), old(self).index()) * 256
                + byte_at(old(self).datagram(), old(self).index() + 1),
            final(self).index() == old(self).index() + 2,
            final(self).datagram() == old(self).datagram(),
    {
        let high = self.next_byte();
        let low = self.next_byte();
        Ok((high as u16) * 256 + low as u16)
    }

    /// The bytes up to the next zero byte, mended; the cursor moves past the
    /// zero byte.
    fn read_nt_bytes(&mut self) -> (raw: Vec<u8>)
        requires
            old(self).has_room(1),
        ensures
            raw@ == repaired(
                window(
                    old(self).datagram(),
                    old(self).index(),
                    next_nul(old(self).datagram(), old(self).index()),
                ),
            ),
            final(self).index() == nt_end(old(self).datagram(), old(self).index()),
            final(self).datagram() == old(self).datagram(),
            final(self).reach() <= old(self).reach() + 1,
    {
        let ghost data = self.datagram();
        let ghost start = self.index();
        let ghost end = next_nul(data, start);
        let mut result: Vec<u8> = Vec::new();
        proof {
            lemma_next_nul(data, start);
        }
        loop
            invariant
                self.datagram() == data,
                data == old(self).datagram(),
                start == old(self).index(),
                start <= self.index() <= end,
                end < usize::MAX,
                end <= old(self).reach(),
                end == next_nul(data, start),
                end == next_nul(data, self.index()),
                result@ == repaired(window(data, start, self.index())),
            decreases end - self.index(),
        {
            let ghost here = self.index();
            let b = self.next_byte();
            if b == 0 {
                return result;
            }
            proof {
                lemma_next_nul(data, here + 1);
                assert(window(data, start, here + 1).drop_last() =~= window(data, start, here));
            }
            if b >= 0x80 && b <= 0xBF && !(result.len() > 0 && result[result.len() - 1] == 0xC2) {
                result.push(0xC2);
                result.push(b);
            } else {
                result.push(b);
            }
        }
    }

    /// The null-terminated string at the cursor; the cursor moves past its
    /// zero byte. Where the mended bytes are valid UTF-8 the string is the
    /// text that they encode.
    pub fn read_nt_str(&mut self) -> (r: Result<String, MspErr>)
        requires
            old(self).has_room(1),
        ensures
            r matches Ok(s) && s@ == nt_text(old(self).datagram(), old(self).index()) && (
            valid_utf8(nt_bytes(old(self).datagram(), old(self).index())) ==> s@ == decode_utf8(
                nt_bytes(old(self).datagram(), old(self).index()),
            )),
            final(self).index() == nt_end(old(self).datagram(), old(self).index()),
            final(self).datagram() == old(self).datagram(),
            final(self).reach() <= old(self).reach() + 1,
    {
        let raw = self.read_nt_bytes();
        Ok(from_utf8_lossy(raw.as_slice()))
    }

    /// Two null-terminated strings, a key and its value; the cursor moves
    /// past both. Where the mended bytes of either are valid UTF-8 it is the
    /// text that they encode.
    pub fn read_nt_kv(&mut self) -> (r: Result<(String, String), MspErr>)
        requires
            old(self).has_room(2),
        ensures
            r matches Ok(kv) && kv.0@ == nt_text(old(self).datagram(), old(self).index())
                && kv.1@ == nt_text(
                old(self).datagram(),
                nt_end(old(self).datagram(), old(self).index()),
            ) && (valid_utf8(nt_bytes(old(self).datagram(), old(self).index())) ==> kv.0@
                == decode_utf8(nt_bytes(old(self).datagram(), old(self).index()))) && (valid_utf8(
                nt_bytes(old(self).datagram(), nt_end(old(self).datagram(), old(self).index())),
            ) ==> kv.1@ == decode_utf8(
                nt_bytes(old(self).datagram(), nt_end(old(self).datagram(), old(self).index())),
            )),
            final(self).index() == nt_end(
                old(self).datagram(),
                nt_end(old(self).datagram(), old(self).index()),
            ),
            final(self).datagram() == old(self).datagram(),
            final(self).reach() <= old(self).reach() + 2,
    {
        let key = self.read_nt_bytes();
        let value = self.read_nt_bytes();
        Ok((from_utf8_lossy(key.as_slice()), from_utf8_lossy(value.as_slice())))
    }

    /// The strings of a group; the cursor moves past the double zero byte
    /// that ends it. A string whose bytes are valid UTF-8 is the text that
    /// they encode.
    pub fn read_nt_str_group(&mut self) -> (r: Result<Vec<String>, MspErr>)
        requires
            old(self).has_room(2),
        ensures
            r matches Ok(group) && string_views(group@) == group_texts(
                old(self).datagram(),
                old(self).index(),
            ) && forall|k: int|
                0 <= k < group@.len() && valid_utf8(
                    group_bytes(old(self).datagram(), old(self).index())[k],
                ) ==> (#[trigger] group@[k])@ == decode_utf8(
                    group_bytes(old(self).datagram(), old(self).index())[k],
                ),
            final(self).index() == group_end(old(self).datagram(), old(self).index()),
            final(self).datagram() == old(self).datagram(),
            final(self).reach() <= old(self).reach() + 2,
    {
        let ghost data = self.datagram();
        let ghost start = self.index();
        let ghost end = next_double_nul(data, start);
        let ghost raw = window(data, start, end);
        let ghost mut done: Seq<Seq<u8>> = Seq::empty();
        let ghost mut piece_start = start;
        let mut result: Vec<u8> = Vec::new();
        let mut str_group: Vec<String> = Vec::new();
        proof {
            lemma_next_double_nul(data, start);
        }
        loop
            invariant
                self.datagram() == data,
                data == old(self).datagram(),
                start == old(self).index(),
                end == next_double_nul(data, start),
                raw == window(data, start, end),
                0 <= start <= piece_start <= self.index() <= end,
                end + 2 <= usize::MAX,
                end <= old(self).reach(),
                double_nul_at(data, end),
                forall|k: int| start <= k < end ==> !double_nul_at(data, k),
                forall|k: int| piece_start <= k < self.index() ==> byte_at(data, k) != 0,
                piece_start == start ==> done.len() == 0,
                piece_start > start ==> byte_at(data, piece_start - 1) == 0,
                result@ == window(data, piece_start, self.index()),
                string_views(str_group@) == lossy_all(done),
                done + split_spec(window(data, piece_start, end), 0u8) == split_spec(raw, 0u8),
            decreases end - self.index(),
        {
            let ghost here = self.index();
            let ghost tail = window(data, piece_start, end);
            let b = self.next_byte();
            if b == 0 {
                let next = self.next_byte();
                assert(next == 0 <==> double_nul_at(data, here));
                if next == 0 {
                    proof {
                        lemma_first_index(tail, 0u8, tail.len() as int);
                        if piece_start > start && piece_start == end {
                            assert(double_nul_at(data, piece_start - 1));
                        }
                    }
                    if result.len() > 0 {
                        let text = from_utf8_lossy(result.as_slice());
                        proof {
                            lemma_push_text(str_group@, text, done, tail);
                        }
                        str_group.push(text);
                    }
                    proof {
                        assert(string_views(str_group@) == group_texts(data, start));
                        lemma_valid_pieces(str_group@, group_bytes(data, start));
                    }
                    return Ok(str_group);
                }
                let text = from_utf8_lossy(result.as_slice());
                proof {
                    lemma_first_index(tail, 0u8, here - piece_start);
                    assert(tail.take(here - piece_start) =~= result@);
                    assert(tail.skip(here - piece_start + 1) =~= window(data, here + 1, end));
                    lemma_push_text(str_group@, text, done, result@);
                    done = done.push(result@);
                    piece_start = here + 1;
                }
                str_group.push(text);
                result.clear();
                result.push(next);
            } else {
                result.push(b);
            }
        }
    }
}

} // verus!
