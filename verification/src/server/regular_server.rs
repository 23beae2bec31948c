use crate::bytes::{
    be_bytes_of, be_u64_at, be_value, lemma_be_roundtrip, push_be_u16, push_be_u64, radix,
};
use crate::conf::Conf;
use crate::error::{ErrKind, MspErr};
use crate::share::get_server_current_time;
use crate::utf8::from_utf8;
use crate::varint::{
    decode_varint_from_socket, encode_varint, lemma_stream_roundtrip, lemma_terminator,
    lemma_varint_length, stream_varint, terminator, varint_bytes,
};
use vstd::prelude::*;
use vstd::slice::slice_subrange;
use vstd::utf8::{
    decode_utf8, encode_utf8, encode_utf8_decode_utf8, encode_utf8_valid_utf8, valid_utf8,
};

verus! {

/// Regular Server info type.
#[derive(Debug)]
pub struct Server {
    /// Server version. Includes version name and protocol number.
    pub version: Version,
    /// Server Player info.
    pub players: Players,
    /// Server description, similar to MOTD.
    pub description: Description,
    /// Server icon, base64 encoding.
    pub favicon: String,
    /// Forge plugin server unique information, including mod and channel info.
    pub forge_data: Option<ForgeData>,
    /// Whether the server enables enforces secure chat, default is false.
    pub enforces_secure_chat: bool,
    /// Server latency, in milliseconds.
    pub ping: u64,
}

/// Version name and protocol number.
#[derive(Debug)]
pub struct Version {
    pub name: String,
    pub protocol: i32,
}

/// How many players there are, how many there may be, and some of them.
#[derive(Debug)]
pub struct Players {
    pub max: i32,
    pub online: i32,
    pub sample: Vec<Player>,
}

impl Default for Players {
    fn default() -> (r: Self)
        ensures
            r.max == 0,
            r.online == 0,
            r.sample@.len() == 0,
    {
        Players { max: 0, online: 0, sample: Vec::new() }
    }
}

/// One player of the sample.
#[derive(Debug)]
pub struct Player {
    pub name: String,
    pub id: String,
}

/// The description: a text, and parts with their own formatting.
#[derive(Debug)]
pub struct Description {
    pub extra: Vec<DescriptionExtra>,
    pub text: String,
}

impl Default for Description {
    fn default() -> (r: Self)
        ensures
            r.extra@.len() == 0,
            r.text@.len() == 0,
    {
        Description { extra: Vec::new(), text: String::new() }
    }
}

impl Description {
    /// The description that a server gives as a plain string: the string is
    /// the text, and there are no parts.
    pub fn from_text(text: String) -> (r: Self)
        ensures
            r.extra@.len() == 0,
            r.text == text,
    {
        Description { extra: Vec::new(), text }
    }
}

/// One part of a description, which may hold parts in turn.
#[derive(Debug)]
pub struct DescriptionExtra {
    pub color: String,
    pub bold: bool,
    pub italic: bool,
    pub underlined: bool,
    pub strikethrough: bool,
    pub obfuscated: bool,
    pub text: String,
    pub extra: Vec<DescriptionExtra>,
}

impl Default for DescriptionExtra {
    fn default() -> (r: Self)
        ensures
            r.color@.len() == 0,
            !r.bold,
            !r.italic,
            !r.underlined,
            !r.strikethrough,
            !r.obfuscated,
            r.text@.len() == 0,
            r.extra@.len() == 0,
    {
        Self {
            color: String::new(),
            bold: false,
            italic: false,
            underlined: false,
            strikethrough: false,
            obfuscated: false,
            text: String::new(),
            extra: Vec::new(),
        }
    }
}

/// What a Forge server adds to its status.
#[derive(Debug)]
pub struct ForgeData {
    pub mods: Vec<ForgeMod>,
    pub channels: Vec<ForgeChannel>,
}

/// One mod of a Forge server.
#[derive(Debug)]
pub struct ForgeMod {
    pub mod_id: String,
    pub modmarker: String,
}

/// One channel of a Forge server.
#[derive(Debug)]
pub struct ForgeChannel {
    pub res: String,
    pub version: String,
    pub required: bool,
}

/// Set enforces secure chat option to false default
pub fn enforces_secure_chat_default() -> (b: bool)
    ensures
        !b,
{
    false
}

/// Set ping to 0 default
pub fn ping_default() -> (ping: u64)
    ensures
        ping == 0,
{
    0
}

/// What a handshake says.
#[derive(Debug)]
pub struct Handshake {
    /// The protocol version of the client; -1 where it only asks.
    pub protocol_version: i32,
    /// The host that the client connects to.
    pub host: String,
    /// The port that the client connects to.
    pub port: u16,
    /// 1 for status, 2 for login.
    pub next_state: i32,
}

/// A `Handshake` with its host as a character sequence.
pub struct HandshakeView {
    pub protocol_version: i32,
    pub host: Seq<char>,
    pub port: u16,
    pub next_state: i32,
}

impl View for Handshake {
    type V = HandshakeView;

    open spec fn view(&self) -> HandshakeView {
        HandshakeView {
            protocol_version: self.protocol_version,
            host: self.host@,
            port: self.port,
            next_state: self.next_state,
        }
    }
}

/// The fields of a handshake: the protocol version as a VarInt, the host in
/// UTF-8 behind its length in bytes as a VarInt, the port as two bytes with
/// the high byte first, and the next state as a VarInt.
pub open spec fn handshake_body(h: HandshakeView) -> Seq<u8> {
    varint_bytes(h.protocol_version) + varint_bytes(encode_utf8(h.host).len() as i32)
        + encode_utf8(h.host) + be_bytes_of(h.port as int, 2) + varint_bytes(h.next_state)
}

/// A packet: the length of what follows as a VarInt, the packet id as a
/// VarInt, and the fields.
pub open spec fn framed(id: i32, body: Seq<u8>) -> Seq<u8> {
    varint_bytes((varint_bytes(id).len() + body.len()) as i32) + varint_bytes(id) + body
}

/// The handshake packet, whose id is 0.
pub open spec fn handshake_packet(h: HandshakeView) -> Seq<u8> {
    framed(0, handshake_body(h))
}

/// What a client that asks for the status of `host` at `port` says: any
/// protocol version, next state 1.
pub open spec fn status_handshake(host: Seq<char>, port: u16) -> HandshakeView {
    HandshakeView { protocol_version: -1i32, host, port, next_state: 1i32 }
}

/// Append `bytes` to `packet`.
fn append(packet: &mut Vec<u8>, bytes: &[u8])
    ensures
        final(packet)@ == old(packet)@ + bytes@,
{
    let mut i: usize = 0;
    while i < bytes.len()
        invariant
            i <= bytes.len(),
            packet@ == old(packet)@ + bytes@.take(i as int),
        decreases bytes.len() - i,
    {
        packet.push(bytes[i]);
        i += 1;
    }
}

/// Put the length and the packet id before `body`.
fn frame_packet(id: i32, body: &Vec<u8>) -> (packet: Vec<u8>)
    ensures
        packet@ == framed(id, body@),
{
    let id_bytes = encode_varint(id);
    let length: i32 = #[verifier::truncate] ((id_bytes.len() as u128 + body.len() as u128) as i32);
    let mut packet = encode_varint(length);
    append(&mut packet, id_bytes.as_slice());
    append(&mut packet, body.as_slice());
    packet
}

/// Build the packet of a handshake.
pub fn build_handshake(handshake: &Handshake) -> (packet: Vec<u8>)
    ensures
        packet@ == handshake_packet(handshake@),
{
    let host_bytes = handshake.host.as_str().as_bytes();
    let mut packet_data = encode_varint(handshake.protocol_version);
    let host_len = encode_varint(#[verifier::truncate] (host_bytes.len() as i32));
    append(&mut packet_data, host_len.as_slice());
    append(&mut packet_data, host_bytes);
    push_be_u16(&mut packet_data, handshake.port);
    let next_state = encode_varint(handshake.next_state);
    append(&mut packet_data, next_state.as_slice());
    frame_packet(0, &packet_data)
}

/// Build handshake packet buffer: the handshake that asks for the status of
/// the configured host at the configured port.
pub fn build_handshake_packet(conf: &Conf) -> (packet: Vec<u8>)
    ensures
        packet@ == handshake_packet(status_handshake(conf.host@, conf.port)),
{
    let handshake = Handshake {
        // If the client is pinging to determine what version to use,
        // by convention -1 should be set.
        protocol_version: -1,
        host: conf.host.clone(),
        port: conf.port,
        // Next state, should be 1 for status, but could also be 2 for login.
        next_state: 1,
    };
    build_handshake(&handshake)
}

/// Build status request packet buffer: a packet with the id 0 and no field.
pub fn build_status_request_packet() -> (packet: Vec<u8>)
    ensures
        packet@ == framed(0, Seq::empty()),
{
    let body: Vec<u8> = Vec::new();
    frame_packet(0, &body)
}

/// The VarInt that stands at `pos` in a whole packet: the position after it
/// and its value. Nothing where it is cut short or takes more than five
/// bytes.
pub open spec fn varint_at(s: Seq<u8>, pos: int) -> Option<(int, i32)> {
    match stream_varint(s, pos) {
        Ok(Some(found)) => Some((pos + found.0, found.1)),
        _ => None,
    }
}

/// What follows the host in a handshake whose host takes the bytes from
/// `from` up to `to`: the port and the next state, and nothing after them.
pub open spec fn handshake_tail(p: Seq<u8>, version: i32, from: int, to: int) -> Result<
    HandshakeView,
    ErrKind,
> {
    if to + 2 > p.len() {
        Err(ErrKind::Data)
    } else if !valid_utf8(p.subrange(from, to)) {
        Err(ErrKind::Internal)
    } else {
        match varint_at(p, to + 2) {
            Some((end, next_state)) => if end == p.len() {
                Ok(
                    HandshakeView {
                        protocol_version: version,
                        host: decode_utf8(p.subrange(from, to)),
                        port: be_value(p.subrange(to, to + 2)) as u16,
                        next_state,
                    },
                )
            } else {
                Err(ErrKind::Data)
            },
            None => Err(ErrKind::Data),
        }
    }
}

/// What a handshake packet says. The length must be that of what follows
/// it, the packet id 0, the length of the host not negative, and the packet
/// must end with the next state: else a `Data` error. A host that is not
/// UTF-8 is an `Internal` error.
pub open spec fn handshake_of(p: Seq<u8>) -> Result<HandshakeView, ErrKind> {
    match varint_at(p, 0) {
        Some((at_id, length)) => match varint_at(p, at_id) {
            Some((at_version, id)) => match varint_at(p, at_version) {
                Some((at_len, version)) => match varint_at(p, at_len) {
                    Some((at_host, host_len)) => if length != p.len() - at_id || id != 0 || host_len < 0 {
                        Err(ErrKind::Data)
                    } else {
                        handshake_tail(p, version, at_host, at_host + host_len)
                    },
                    None => Err(ErrKind::Data),
                },
                None => Err(ErrKind::Data),
            },
            None => Err(ErrKind::Data),
        },
        None => Err(ErrKind::Data),
    }
}

/// Read the VarInt at `pos` of a whole packet.
fn read_varint(packet: &[u8], pos: usize) -> (r: Result<(usize, i32), MspErr>)
    ensures
        match r {
            Ok(found) => varint_at(packet@, pos as int) == Some((found.0 as int, found.1))
                && pos < found.0 <= packet.len(),
            Err(e) => varint_at(packet@, pos as int) is None && e.kind() == ErrKind::Data,
        },
{
    match stream_read(packet, pos) {
        Ok(Some(found)) => Ok(found),
        Ok(None) => Err(MspErr::data("The packet ends within a VarInt")),
        Err(e) => Err(e),
    }
}

/// Decode the packet of a handshake.
pub fn parse_handshake_packet(packet: &[u8]) -> (r: Result<Handshake, MspErr>)
    ensures
        match r {
            Ok(handshake) => handshake_of(packet@) == Ok::<_, ErrKind>(handshake@),
            Err(e) => handshake_of(packet@) == Err::<HandshakeView, _>(e.kind()),
        },
{
    let (at_id, length) = match read_varint(packet, 0) {
        Ok(found) => found,
        Err(e) => { return Err(e); },
    };
    let (at_version, id) = match read_varint(packet, at_id) {
        Ok(found) => found,
        Err(e) => { return Err(e); },
    };
    let (at_len, protocol_version) = match read_varint(packet, at_version) {
        Ok(found) => found,
        Err(e) => { return Err(e); },
    };
    let (at_host, host_len) = match read_varint(packet, at_len) {
        Ok(found) => found,
        Err(e) => { return Err(e); },
    };
    if length < 0 || length as usize != packet.len() - at_id || id != 0 || host_len < 0 {
        return Err(MspErr::data("The packet is no handshake"));
    }
    let left = packet.len() - at_host;
    if left < 2 || left - 2 < host_len as usize {
        return Err(MspErr::data("The packet ends within the handshake"));
    }
    let host_end: usize = at_host + host_len as usize;
    let host = match from_utf8(slice_subrange(packet, at_host, host_end)) {
        Some(host) => host,
        None => { return Err(MspErr::internal("invalid utf-8 sequence")); },
    };
    proof {
        reveal_with_fuel(be_value, 3);
    }
    let port: u16 = (packet[host_end] as u16) * 256 + packet[host_end + 1] as u16;
    let (end, next_state) = match read_varint(packet, host_end + 2) {
        Ok(found) => found,
        Err(e) => { return Err(e); },
    };
    if end != packet.len() {
        return Err(MspErr::data("The packet goes on after the handshake"));
    }
    Ok(Handshake { protocol_version, host, port, next_state })
}

/// A VarInt between two runs of bytes is read at the end of the first run.
proof fn lemma_varint_within(p: Seq<u8>, before: Seq<u8>, n: i32, after: Seq<u8>)
    requires
        p == before + varint_bytes(n) + after,
    ensures
        varint_at(p, before.len() as int) == Some(
            ((before.len() + varint_bytes(n).len()) as int, n),
        ),
{
    let from = before.len() as int;
    assert(p.subrange(from, from + varint_bytes(n).len()) =~= varint_bytes(n));
    lemma_stream_roundtrip(p, from, n);
    lemma_varint_length(n);
}

/// How long the parts of a handshake are, and that its port reads back.
proof fn lemma_handshake_lengths(h: HandshakeView)
    ensures
        varint_bytes(0).len() == 1,
        handshake_body(h).len() == varint_bytes(h.protocol_version).len() + varint_bytes(
            encode_utf8(h.host).len() as i32,
        ).len() + encode_utf8(h.host).len() + 2 + varint_bytes(h.next_state).len(),
        be_bytes_of(h.port as int, 2).len() == 2,
        be_value(be_bytes_of(h.port as int, 2)) == h.port,
{
    lemma_varint_length(h.protocol_version);
    lemma_varint_length(encode_utf8(h.host).len() as i32);
    lemma_varint_length(h.next_state);
    lemma_be_roundtrip(h.port as int, 2);
    assert(radix(2) == 65536) by {
        reveal_with_fuel(radix, 3);
    }
}

/// Seven runs of bytes in a row, grouped in the ways the proof below needs.
proof fn lemma_regroup(
    head: Seq<u8>,
    id: Seq<u8>,
    a: Seq<u8>,
    b: Seq<u8>,
    host: Seq<u8>,
    d: Seq<u8>,
    e: Seq<u8>,
)
    ensures
        ({
            let p = head + id + (a + b + host + d + e);
            let none = Seq::<u8>::empty();
            let at = (head.len() + id.len() + a.len() + b.len()) as int;
            &&& p == none + head + (id + (a + b + host + d + e))
            &&& p == (head + id) + a + (b + host + d + e)
            &&& p == (head + id + a) + b + (host + d + e)
            &&& p == (head + id + a + b + host + d) + e + none
            &&& p.subrange(at, at + host.len()) == host
            &&& p.subrange(at + host.len(), at + host.len() + d.len()) == d
        }),
{
    let p = head + id + (a + b + host + d + e);
    let none = Seq::<u8>::empty();
    let at = (head.len() + id.len() + a.len() + b.len()) as int;
}

/// A handshake that was built is decoded to the same fields, as long as the
/// length that the packet states, that of its body and one more, is no
/// greater than the greatest `i32`.
pub proof fn lemma_handshake_roundtrip(h: HandshakeView)
    requires
        handshake_body(h).len() + 1 <= i32::MAX,
    ensures
        handshake_of(handshake_packet(h)) == Ok::<_, ErrKind>(h),
{
    let host = encode_utf8(h.host);
    let a = varint_bytes(h.protocol_version);
    let b = varint_bytes(host.len() as i32);
    let d = be_bytes_of(h.port as int, 2);
    let e = varint_bytes(h.next_state);
    let body = handshake_body(h);
    let id = varint_bytes(0);
    let total = (id.len() + body.len()) as i32;
    let head = varint_bytes(total);
    let p = handshake_packet(h);
    let none = Seq::<u8>::empty();
    lemma_handshake_lengths(h);
    lemma_regroup(head, id, a, b, host, d, e);
    lemma_varint_within(p, none, total, id + body);
    lemma_varint_within(p, head, 0, body);
    lemma_varint_within(p, head + id, h.protocol_version, b + host + d + e);
    lemma_varint_within(p, head + id + a, host.len() as i32, host + d + e);
    lemma_varint_within(p, head + id + a + b + host + d, h.next_state, none);
    encode_utf8_valid_utf8(h.host);
    encode_utf8_decode_utf8(h.host);
}

/// The VarInt that begins at `pos` in a stream of which `s` has arrived so
/// far: the position after it and its value.
pub open spec fn stream_at(s: Seq<u8>, pos: int) -> Result<Option<(int, i32)>, ErrKind> {
    match stream_varint(s, pos) {
        Ok(Some(found)) => Ok(Some((pos + found.0, found.1))),
        Ok(None) => Ok(None),
        Err(k) => Err(k),
    }
}

/// Read the VarInt at `pos` of a stream.
fn stream_read(buf: &[u8], pos: usize) -> (r: Result<Option<(usize, i32)>, MspErr>)
    ensures
        match r {
            Ok(Some(found)) => stream_at(buf@, pos as int) == Ok::<_, ErrKind>(
                Some((found.0 as int, found.1)),
            ) && pos < found.0 <= buf.len(),
            Ok(None) => stream_at(buf@, pos as int) == Ok::<Option<(int, i32)>, ErrKind>(None),
            Err(e) => stream_at(buf@, pos as int) == Err::<Option<(int, i32)>, _>(e.kind()),
        },
{
    proof {
        lemma_terminator(buf@, pos as int);
    }
    match decode_varint_from_socket(buf, pos) {
        Ok(Some((taken, value))) => {
            proof {
                let end = terminator(buf@, pos as int)->0;
                assert(pos <= end < buf.len());
            }
            Ok(Some((pos + taken, value)))
        },
        Ok(None) => Ok(None),
        Err(e) => Err(e),
    }
}

/// Where the payload of a status response stands in a stream of which `buf`
/// has arrived so far. The response is three VarInts, the packet's length,
/// its id and the payload's length, and the payload; only the last VarInt is
/// gone by. `Ok(None)` where more bytes have to arrive; a `Data` error on a
/// VarInt of more than five bytes and on a negative length.
pub open spec fn status_frame(buf: Seq<u8>) -> Result<Option<(int, int)>, ErrKind> {
    match stream_at(buf, 0) {
        Ok(Some((at_id, _))) => match stream_at(buf, at_id) {
            Ok(Some((at_size, _))) => match stream_at(buf, at_size) {
                Ok(Some((at_payload, size))) => if size < 0 {
                    Err(ErrKind::Data)
                } else if at_payload + size > buf.len() {
                    Ok(None)
                } else {
                    Ok(Some((at_payload, at_payload + size)))
                },
                Ok(None) => Ok(None),
                Err(k) => Err(k),
            },
            Ok(None) => Ok(None),
            Err(k) => Err(k),
        },
        Ok(None) => Ok(None),
        Err(k) => Err(k),
    }
}

/// The JSON text of a status response; an `Internal` error where the
/// payload is not UTF-8.
pub open spec fn status_json_of(buf: Seq<u8>) -> Result<Option<Seq<char>>, ErrKind> {
    match status_frame(buf) {
        Ok(Some((from, to))) => if valid_utf8(buf.subrange(from, to)) {
            Ok(Some(decode_utf8(buf.subrange(from, to))))
        } else {
            Err(ErrKind::Internal)
        },
        Ok(None) => Ok(None),
        Err(k) => Err(k),
    }
}

/// Find the payload of a status response in what has arrived of the stream.
pub fn frame_status_response(buf: &[u8]) -> (r: Result<Option<(usize, usize)>, MspErr>)
    ensures
        match r {
            Ok(Some(range)) => status_frame(buf@) == Ok::<_, ErrKind>(
                Some((range.0 as int, range.1 as int)),
            ) && range.0 <= range.1 <= buf.len(),
            Ok(None) => status_frame(buf@) == Ok::<Option<(int, int)>, ErrKind>(None),
            Err(e) => status_frame(buf@) == Err::<Option<(int, int)>, _>(e.kind()),
        },
{
    let at_id = match stream_read(buf, 0) {
        Ok(Some(found)) => found.0,
        Ok(None) => { return Ok(None); },
        Err(e) => { return Err(e); },
    };
    let at_size = match stream_read(buf, at_id) {
        Ok(Some(found)) => found.0,
        Ok(None) => { return Ok(None); },
        Err(e) => { return Err(e); },
    };
    let (at_payload, d_size) = match stream_read(buf, at_size) {
        Ok(Some(found)) => found,
        Ok(None) => { return Ok(None); },
        Err(e) => { return Err(e); },
    };
    if d_size < 0 {
        return Err(MspErr::data("The length of the status is negative"));
    }
    if buf.len() - at_payload < d_size as usize {
        return Ok(None);
    }
    Ok(Some((at_payload, at_payload + d_size as usize)))
}

/// The JSON text of the status response in what has arrived of the stream;
/// `None` where more bytes have to arrive.
pub fn read_status_response(buf: &[u8]) -> (r: Result<Option<String>, MspErr>)
    ensures
        match r {
            Ok(Some(json)) => status_json_of(buf@) == Ok::<_, ErrKind>(Some(json@)),
            Ok(None) => status_json_of(buf@) == Ok::<Option<Seq<char>>, ErrKind>(None),
            Err(e) => status_json_of(buf@) == Err::<Option<Seq<char>>, _>(e.kind()),
        },
{
    match frame_status_response(buf) {
        Ok(Some((from, to))) => match from_utf8(slice_subrange(buf, from, to)) {
            Some(json) => Ok(Some(json)),
            None => Err(MspErr::internal("invalid utf-8 sequence")),
        },
        Ok(None) => Ok(None),
        Err(e) => Err(e),
    }
}

/// The ping request that carries the time `t`: a packet with the id 1 and
/// `t` as eight bytes, the high byte first.
pub open spec fn ping_request(t: u64) -> Seq<u8> {
    framed(1, be_bytes_of(t as int, 8))
}

/// The ping request that carries the time `now_millis`.
pub fn ping_request_packet(now_millis: u64) -> (packet: Vec<u8>)
    ensures
        packet@ == ping_request(now_millis),
{
    let mut body: Vec<u8> = Vec::new();
    push_be_u64(&mut body, now_millis);
    frame_packet(1, &body)
}

/// Build ping request packet buffer: the current time, and the request that
/// carries it. Fails with `InternalErr` where the clock cannot be read.
pub fn build_ping_request_packet() -> (r: Result<(u64, Vec<u8>), MspErr>)
    ensures
        match r {
            Ok(sent) => sent.1@ == ping_request(sent.0),
            Err(e) => e.kind() == ErrKind::Internal,
        },
{
    match get_server_current_time() {
        Ok(now_millis) => Ok((now_millis, ping_request_packet(now_millis))),
        Err(e) => Err(e),
    }
}

/// The time that a ping response carries, in a stream of which `buf` has
/// arrived so far: two VarInts, which are gone by, and eight bytes.
pub open spec fn pong_of(buf: Seq<u8>) -> Result<Option<u64>, ErrKind> {
    match stream_at(buf, 0) {
        Ok(Some((at_id, _))) => match stream_at(buf, at_id) {
            Ok(Some((at_time, _))) => if at_time + 8 > buf.len() {
                Ok(None)
            } else {
                Ok(Some(be_value(buf.subrange(at_time, at_time + 8)) as u64))
            },
            Ok(None) => Ok(None),
            Err(k) => Err(k),
        },
        Ok(None) => Ok(None),
        Err(k) => Err(k),
    }
}

/// The time that the ping response carries; `None` where more bytes have to
/// arrive.
pub fn read_ping_response(buf: &[u8]) -> (r: Result<Option<u64>, MspErr>)
    ensures
        match r {
            Ok(found) => pong_of(buf@) == Ok::<_, ErrKind>(found),
            Err(e) => pong_of(buf@) == Err::<Option<u64>, _>(e.kind()),
        },
{
    let at_id = match stream_read(buf, 0) {
        Ok(Some(found)) => found.0,
        Ok(None) => { return Ok(None); },
        Err(e) => { return Err(e); },
    };
    let at_time = match stream_read(buf, at_id) {
        Ok(Some(found)) => found.0,
        Ok(None) => { return Ok(None); },
        Err(e) => { return Err(e); },
    };
    if buf.len() - at_time < 8 {
        return Ok(None);
    }
    Ok(Some(be_u64_at(buf, at_time)))
}

/// The round trip in milliseconds of a ping that was sent at `req_t`, came
/// back carrying `receive_t` and arrived at `res_t`. A `Data` error where the
/// response does not carry the time that was sent, an `Internal` one where
/// the clock went back.
pub open spec fn ping_between(req_t: u64, receive_t: u64, res_t: u64) -> Result<u64, ErrKind> {
    if receive_t != req_t {
        Err(ErrKind::Data)
    } else if res_t < req_t {
        Err(ErrKind::Internal)
    } else {
        Ok((res_t - req_t) as u64)
    }
}

/// The latency that a ping shows.
pub fn server_ping(req_t: u64, receive_t: u64, res_t: u64) -> (r: Result<u64, MspErr>)
    ensures
        match r {
            Ok(ping) => ping_between(req_t, receive_t, res_t) == Ok::<_, ErrKind>(ping),
            Err(e) => ping_between(req_t, receive_t, res_t) == Err::<u64, _>(e.kind()),
        },
{
    if receive_t != req_t {
        return Err(
            MspErr::data("Server's response time does not match the sending time"),
        );
    }
    if res_t < req_t {
        return Err(MspErr::internal("The clock went back while the ping was under way"));
    }
    Ok(res_t - req_t)
}

/// The latency of the server, from the response to a ping that was sent at
/// `req_t`; `None` where more bytes of it have to arrive. The clock is read
/// when the response is whole and carries `req_t`.
pub fn get_server_ping(buf: &[u8], req_t: u64) -> (r: Result<Option<u64>, MspErr>)
    ensures
        match r {
            Ok(Some(_)) => pong_of(buf@) == Ok::<_, ErrKind>(Some(req_t)),
            Ok(None) => pong_of(buf@) == Ok::<Option<u64>, ErrKind>(None),
            Err(e) => match pong_of(buf@) {
                Ok(Some(receive_t)) => if receive_t == req_t {
                    e.kind() == ErrKind::Internal
                } else {
                    e.kind() == ErrKind::Data
                },
                Ok(None) => false,
                Err(k) => e.kind() == k,
            },
        },
{
    let receive_t = match read_ping_response(buf) {
        Ok(Some(t)) => t,
        Ok(None) => { return Ok(None); },
        Err(e) => { return Err(e); },
    };
    if receive_t != req_t {
        return Err(
            MspErr::data("Server's response time does not match the sending time"),
        );
    }
    let res_t = match get_server_current_time() {
        Ok(t) => t,
        Err(e) => { return Err(e); },
    };
    match server_ping(req_t, receive_t, res_t) {
        Ok(ping) => Ok(Some(ping)),
        Err(e) => Err(e),
    }
}

} // verus!
