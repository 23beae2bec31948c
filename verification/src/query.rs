use crate::bytes::{be_bytes_of, push_be_u32};
use crate::error::{ErrKind, MspErr};
use crate::number::{int32_of, parse_i32};
use crate::share::{byte_at, group_texts, nt_end, nt_text, UdpReader};
use crate::text::{
    chars_of, split, split_spec, string_of, string_views, trim, trim_spec, views,
};
use crate::utf8::from_utf8;
use crate::varint::to_unsigned;
use vstd::prelude::*;
use vstd::slice::slice_subrange;
use vstd::utf8::{decode_utf8, valid_utf8};

verus! {

/// The most bytes that one UDP datagram can hold.
pub const MAX_DATAGRAM: usize = 65535;

/// Basic status of a server, as the Query protocol gives it.
#[derive(Debug)]
pub struct QueryBasic {
    pub motd: String,
    pub game_type: String,
    pub map: String,
    pub numplayers: String,
    pub maxplayers: String,
    pub hostport: u16,
    pub hostip: String,
}

/// A `QueryBasic` with its strings as character sequences.
pub struct QueryBasicView {
    pub motd: Seq<char>,
    pub game_type: Seq<char>,
    pub map: Seq<char>,
    pub numplayers: Seq<char>,
    pub maxplayers: Seq<char>,
    pub hostport: u16,
    pub hostip: Seq<char>,
}

impl View for QueryBasic {
    type V = QueryBasicView;

    open spec fn view(&self) -> QueryBasicView {
        QueryBasicView {
            motd: self.motd@,
            game_type: self.game_type@,
            map: self.map@,
            numplayers: self.numplayers@,
            maxplayers: self.maxplayers@,
            hostport: self.hostport,
            hostip: self.hostip@,
        }
    }
}

/// The server mod and its plugins.
#[derive(Debug)]
pub struct ModPlugin {
    pub mod_name: String,
    pub plugins: Vec<String>,
}

/// A `ModPlugin` with its strings as character sequences.
pub struct ModPluginView {
    pub mod_name: Seq<char>,
    pub plugins: Seq<Seq<char>>,
}

impl View for ModPlugin {
    type V = ModPluginView;

    open spec fn view(&self) -> ModPluginView {
        ModPluginView { mod_name: self.mod_name@, plugins: string_views(self.plugins@) }
    }
}

/// The views of the entries of `v`.
pub open spec fn plugin_views(v: Seq<ModPlugin>) -> Seq<ModPluginView> {
    Seq::new(v.len(), |i: int| v[i]@)
}

/// Full status of a server, as the Query protocol gives it.
#[derive(Debug)]
pub struct QueryFull {
    pub hostname: String,
    pub gametype: String,
    pub game_id: String,
    pub version: String,
    pub plugins: Vec<ModPlugin>,
    pub map: String,
    pub numplayers: String,
    pub maxplayers: String,
    pub hostport: String,
    pub hostip: String,
    pub players: Vec<String>,
}

/// A `QueryFull` with its strings as character sequences.
pub struct QueryFullView {
    pub hostname: Seq<char>,
    pub gametype: Seq<char>,
    pub game_id: Seq<char>,
    pub version: Seq<char>,
    pub plugins: Seq<ModPluginView>,
    pub map: Seq<char>,
    pub numplayers: Seq<char>,
    pub maxplayers: Seq<char>,
    pub hostport: Seq<char>,
    pub hostip: Seq<char>,
    pub players: Seq<Seq<char>>,
}

impl View for QueryFull {
    type V = QueryFullView;

    open spec fn view(&self) -> QueryFullView {
        QueryFullView {
            hostname: self.hostname@,
            gametype: self.gametype@,
            game_id: self.game_id@,
            version: self.version@,
            plugins: plugin_views(self.plugins@),
            map: self.map@,
            numplayers: self.numplayers@,
            maxplayers: self.maxplayers@,
            hostport: self.hostport@,
            hostip: self.hostip@,
            players: string_views(self.players@),
        }
    }
}

/// The seven bytes that a request begins with: the magic `FE FD`, the type,
/// and the session id, which is always 1.
pub open spec fn query_head(kind: u8) -> Seq<u8> {
    seq![0xFEu8, 0xFDu8, kind, 0x00u8, 0x00u8, 0x00u8, 0x01u8]
}

/// The handshake request, of type 9.
pub open spec fn handshake_request() -> Seq<u8> {
    query_head(0x09)
}

/// The stat request, of type 0: the challenge token as four bytes, the high
/// byte first, and for a full stat four zero bytes more.
pub open spec fn stat_request(token: i32, full_query: bool) -> Seq<u8> {
    query_head(0x00) + be_bytes_of(to_unsigned(token as int), 4) + if full_query {
        seq![0x00u8, 0x00u8, 0x00u8, 0x00u8]
    } else {
        Seq::empty()
    }
}

/// Append the seven bytes that a request begins with.
fn push_query_head(packet: &mut Vec<u8>, kind: u8)
    ensures
        final(packet)@ == old(packet)@ + query_head(kind),
{
    packet.push(0xFE);
    packet.push(0xFD);
    packet.push(kind);
    packet.push(0x00);
    packet.push(0x00);
    packet.push(0x00);
    packet.push(0x01);
}

/// The request that opens a query.
pub fn build_query_handshake_packet() -> (packet: Vec<u8>)
    ensures
        packet@ == handshake_request(),
{
    let mut packet: Vec<u8> = Vec::new();
    push_query_head(&mut packet, 0x09);
    packet
}

/// The request for the status, basic or full, with the token that the server
/// gave.
pub fn build_query_stat_packet(token: i32, full_query: bool) -> (packet: Vec<u8>)
    ensures
        packet@ == stat_request(token, full_query),
{
    let mut packet: Vec<u8> = Vec::new();
    push_query_head(&mut packet, 0x00);
    assert(token as u32 == (if token < 0 {
        token + 0x1_0000_0000
    } else {
        token as int
    })) by (bit_vector);
    push_be_u32(&mut packet, #[verifier::truncate] (token as u32));
    if full_query {
        packet.push(0x00);
        packet.push(0x00);
        packet.push(0x00);
        packet.push(0x00);
    }
    packet
}

/// `bufs` without the zero bytes at its end.
pub open spec fn strip_zeros(bufs: Seq<u8>) -> Seq<u8>
    decreases bufs.len(),
{
    if bufs.len() > 0 && bufs.last() == 0 {
        strip_zeros(bufs.drop_last())
    } else {
        bufs
    }
}

/// Four bytes as a number, the high byte first, of which only the low four
/// bits of each byte count: what the mask `0x0F0F0F0F` leaves.
pub open spec fn masked_id(b1: u8, b2: u8, b3: u8, b4: u8) -> int {
    (b1 % 16) * 0x100_0000 + (b2 % 16) * 0x1_0000 + (b3 % 16) * 0x100 + (b4 % 16)
}

/// The session id and the challenge token in a handshake reply. Its zero
/// bytes at the end are dropped first. What is left has 6 to 17 bytes: the
/// type 9, four bytes of session id, and the token as a decimal number in
/// text. Another length or type is a `Data` error; a token that is not UTF-8
/// is an `Internal` error, one that is text but no signed 32-bit number a
/// `Data` error.
pub open spec fn challenge_of(bufs: Seq<u8>) -> Result<(i32, i32), ErrKind> {
    let b = strip_zeros(bufs);
    if b.len() <= 5 || b.len() > 17 || b[0] != 0x09 {
        Err(ErrKind::Data)
    } else if !valid_utf8(b.skip(5)) {
        Err(ErrKind::Internal)
    } else if int32_of(decode_utf8(b.skip(5))) is None {
        Err(ErrKind::Data)
    } else {
        Ok((masked_id(b[1], b[2], b[3], b[4]) as i32, int32_of(decode_utf8(b.skip(5)))->0 as i32))
    }
}

/// Four bytes as a number under the mask `0x0F0F0F0F`.
fn masked(b1: u8, b2: u8, b3: u8, b4: u8) -> (id: i32)
    ensures
        id == masked_id(b1, b2, b3, b4),
{
    assert(b1 & 0x0F == b1 % 16) by (bit_vector);
    assert(b2 & 0x0F == b2 % 16) by (bit_vector);
    assert(b3 & 0x0F == b3 % 16) by (bit_vector);
    assert(b4 & 0x0F == b4 % 16) by (bit_vector);
    ((b1 & 0x0F) as i32) * 0x100_0000 + ((b2 & 0x0F) as i32) * 0x1_0000 + ((b3 & 0x0F) as i32)
        * 0x100 + (b4 & 0x0F) as i32
}

/// Process the handshake reply: the session id, masked, and the challenge
/// token.
pub fn get_challenge_token(bufs: &[u8]) -> (r: Result<(i32, i32), MspErr>)
    ensures
        match r {
            Ok(pair) => challenge_of(bufs@) == Ok::<_, ErrKind>(pair),
            Err(e) => challenge_of(bufs@) == Err::<(i32, i32), _>(e.kind()),
        },
{
    let mut buf_len: usize = bufs.len();
    assert(bufs@.take(buf_len as int) =~= bufs@);
    while buf_len > 0 && bufs[buf_len - 1] == 0
        invariant
            buf_len <= bufs.len(),
            strip_zeros(bufs@.take(buf_len as int)) == strip_zeros(bufs@),
        decreases buf_len,
    {
        assert(bufs@.take(buf_len as int).drop_last() =~= bufs@.take(buf_len - 1));
        buf_len -= 1;
    }
    let ghost b = bufs@.take(buf_len as int);
    if buf_len <= 5 || buf_len > 17 {
        return Err(MspErr::data("Query handshake response packet len invalid"));
    }
    if bufs[0] != 0x09 {
        return Err(
            MspErr::data("Query handshake response packet invalid, expected start with 0x09"),
        );
    }
    let session_id = masked(bufs[1], bufs[2], bufs[3], bufs[4]);
    let tail = slice_subrange(bufs, 5, buf_len);
    assert(tail@ =~= b.skip(5));
    match from_utf8(tail) {
        Some(token_str) => {
            let chars = chars_of(token_str.as_str());
            match parse_i32(chars.as_slice()) {
                Some(token) => Ok((session_id, token)),
                None => Err(MspErr::data("invalid digit found in string")),
            }
        },
        None => Err(MspErr::internal("invalid utf-8 sequence")),
    }
}

/// The challenge token of a handshake reply whose session id is 1.
pub open spec fn token_of(bufs: Seq<u8>) -> Result<i32, ErrKind> {
    match challenge_of(bufs) {
        Ok(pair) => if pair.0 == 1 {
            Ok(pair.1)
        } else {
            Err(ErrKind::Data)
        },
        Err(k) => Err(k),
    }
}

/// The challenge token in a handshake reply. Fails with `DataErr` where the
/// session id is not the 1 that was sent.
pub fn query_challenge_token(bufs: &[u8]) -> (r: Result<i32, MspErr>)
    ensures
        match r {
            Ok(token) => token_of(bufs@) == Ok::<_, ErrKind>(token),
            Err(e) => token_of(bufs@) == Err::<i32, _>(e.kind()),
        },
{
    match get_challenge_token(bufs) {
        Ok((session_id, token)) => {
            if session_id != 1 {
                Err(MspErr::data("Response session_id is inconsistent with the client(1)."))
            } else {
                Ok(token)
            }
        },
        Err(e) => Err(e),
    }
}

/// Whether `data` is a stat reply to this client: one datagram that begins
/// with the type 0 and the session id 1, masked.
pub open spec fn stat_header_ok(data: Seq<u8>) -> bool {
    &&& data.len() <= MAX_DATAGRAM
    &&& byte_at(data, 0) == 0
    &&& masked_id(byte_at(data, 1), byte_at(data, 2), byte_at(data, 3), byte_at(data, 4)) == 1
}

/// Check the five bytes that a stat reply begins with and put a cursor
/// after them.
pub fn open_stat_reply(datagram: Vec<u8>) -> (r: Result<UdpReader, MspErr>)
    ensures
        match r {
            Ok(reader) => stat_header_ok(datagram@) && reader.datagram() == datagram@
                && reader.index() == 5,
            Err(e) => !stat_header_ok(datagram@) && e.kind() == ErrKind::Data,
        },
{
    if datagram.len() > MAX_DATAGRAM {
        return Err(MspErr::data("Response packet invalid, longer than a datagram"));
    }
    let mut udp_reader = UdpReader::create_with_idx(datagram, 0);
    let bufs = match udp_reader.read_bufs(5) {
        Ok(b) => b,
        Err(e) => { return Err(e); },
    };
    if bufs[0] != 0x00 {
        return Err(MspErr::data("Response packet invalid, expected start with 0x00"));
    }
    if masked(bufs[1], bufs[2], bufs[3], bufs[4]) != 1 {
        return Err(MspErr::data("Query session ID mismatch"));
    }
    Ok(udp_reader)
}

/// The basic status that stands at `i`: five null-terminated strings, the
/// port as two bytes with the high byte first, and one more string.
pub open spec fn basic_at(data: Seq<u8>, i: int) -> QueryBasicView {
    let i1 = nt_end(data, i);
    let i2 = nt_end(data, i1);
    let i3 = nt_end(data, i2);
    let i4 = nt_end(data, i3);
    let i5 = nt_end(data, i4);
    QueryBasicView {
        motd: nt_text(data, i),
        game_type: nt_text(data, i1),
        map: nt_text(data, i2),
        numplayers: nt_text(data, i3),
        maxplayers: nt_text(data, i4),
        hostport: (byte_at(data, i5) * 256 + byte_at(data, i5 + 1)) as u16,
        hostip: nt_text(data, i5 + 2),
    }
}

/// Read the basic status at the cursor.
pub fn read_query_basic(udp_reader: &mut UdpReader) -> (r: Result<QueryBasic, MspErr>)
    requires
        old(udp_reader).has_room(8),
    ensures
        r matches Ok(q) && q@ == basic_at(old(udp_reader).datagram(), old(udp_reader).index()),
        final(udp_reader).datagram() == old(udp_reader).datagram(),
{
    let motd = match udp_reader.read_nt_str() {
        Ok(s) => s,
        Err(e) => { return Err(e); },
    };
    let game_type = match udp_reader.read_nt_str() {
        Ok(s) => s,
        Err(e) => { return Err(e); },
    };
    let map = match udp_reader.read_nt_str() {
        Ok(s) => s,
        Err(e) => { return Err(e); },
    };
    let numplayers = match udp_reader.read_nt_str() {
        Ok(s) => s,
        Err(e) => { return Err(e); },
    };
    let maxplayers = match udp_reader.read_nt_str() {
        Ok(s) => s,
        Err(e) => { return Err(e); },
    };
    let hostport = match udp_reader.read_port() {
        Ok(p) => p,
        Err(e) => { return Err(e); },
    };
    let hostip = match udp_reader.read_nt_str() {
        Ok(s) => s,
        Err(e) => { return Err(e); },
    };
    Ok(QueryBasic { motd, game_type, map, numplayers, maxplayers, hostport, hostip })
}

/// The basic status in a stat reply.
pub open spec fn query_basic_of(data: Seq<u8>) -> Result<QueryBasicView, ErrKind> {
    if stat_header_ok(data) {
        Ok(basic_at(data, 5))
    } else {
        Err(ErrKind::Data)
    }
}

/// Decode the reply to a basic stat request.
pub fn query_basic_status(datagram: Vec<u8>) -> (r: Result<QueryBasic, MspErr>)
    ensures
        match r {
            Ok(q) => query_basic_of(datagram@) == Ok::<_, ErrKind>(q@),
            Err(e) => query_basic_of(datagram@) == Err::<QueryBasicView, _>(e.kind()),
        },
{
    let mut udp_reader = match open_stat_reply(datagram) {
        Ok(reader) => reader,
        Err(e) => { return Err(e); },
    };
    read_query_basic(&mut udp_reader)
}

/// Each piece without the white space at its ends.
pub open spec fn trim_all(pieces: Seq<Seq<char>>) -> Seq<Seq<char>> {
    Seq::new(pieces.len(), |i: int| trim_spec(pieces[i]))
}

/// The plugins in the value of the `plugins` key, which has the form
/// `MOD_NAME[: PLUGIN(; PLUGIN...)]`. Nothing where the value is empty, one
/// entry where it has at most one colon, a `Data` error where it has more.
pub open spec fn plugins_of(value: Seq<char>) -> Result<Seq<ModPluginView>, ErrKind> {
    let parts = split_spec(value, ':');
    if value.len() == 0 {
        Ok(Seq::empty())
    } else if parts.len() == 1 {
        Ok(seq![ModPluginView { mod_name: trim_spec(parts[0]), plugins: Seq::empty() }])
    } else if parts.len() == 2 {
        Ok(
            seq![
                ModPluginView {
                    mod_name: trim_spec(parts[0]),
                    plugins: trim_all(split_spec(trim_spec(parts[1]), ';')),
                },
            ],
        )
    } else {
        Err(ErrKind::Data)
    }
}

/// Each piece, trimmed, as a string.
fn trimmed_strings(pieces: &Vec<Vec<char>>) -> (r: Vec<String>)
    ensures
        string_views(r@) == trim_all(views(pieces@)),
{
    let mut r: Vec<String> = Vec::new();
    let mut i: usize = 0;
    while i < pieces.len()
        invariant
            i <= pieces.len(),
            r@.len() == i,
            forall|k: int| 0 <= k < i ==> r@[k]@ == trim_spec(pieces@[k]@),
        decreases pieces.len() - i,
    {
        let trimmed = trim(pieces[i].as_slice());
        r.push(string_of(trimmed.as_slice()));
        i += 1;
    }
    r
}

/// Read the value of the `plugins` key.
pub fn resolve_plugin(plugin_str: &str) -> (r: Result<Vec<ModPlugin>, MspErr>)
    ensures
        match r {
            Ok(plugins) => plugins_of(plugin_str@) == Ok::<_, ErrKind>(plugin_views(plugins@)),
            Err(e) => plugins_of(plugin_str@) == Err::<Seq<ModPluginView>, _>(e.kind()),
        },
{
    let chars = chars_of(plugin_str);
    let mut result: Vec<ModPlugin> = Vec::new();
    if chars.len() == 0 {
        assert(plugin_views(result@) =~= Seq::<ModPluginView>::empty());
        return Ok(result);
    }
    let plugin_collection = split(chars.as_slice(), ':');
    if plugin_collection.len() == 2 {
        let mod_name = trim(plugin_collection[0].as_slice());
        let listed = trim(plugin_collection[1].as_slice());
        let names = split(listed.as_slice(), ';');
        let entry = ModPlugin {
            mod_name: string_of(mod_name.as_slice()),
            plugins: trimmed_strings(&names),
        };
        result.push(entry);
        assert(plugin_views(result@) =~= seq![result@[0]@]);
        Ok(result)
    } else if plugin_collection.len() == 1 {
        let mod_name = trim(plugin_collection[0].as_slice());
        let entry = ModPlugin { mod_name: string_of(mod_name.as_slice()), plugins: Vec::new() };
        assert(string_views(entry.plugins@) =~= Seq::<Seq<char>>::empty());
        result.push(entry);
        assert(plugin_views(result@) =~= seq![result@[0]@]);
        Ok(result)
    } else {
        Err(MspErr::data("Multiple mod plugin formats have been detected."))
    }
}

/// The value of the key/value pair that stands at `i`.
pub open spec fn kv_value(data: Seq<u8>, i: int) -> Seq<char> {
    nt_text(data, nt_end(data, i))
}

/// The position after the key/value pair that stands at `i`.
pub open spec fn kv_end(data: Seq<u8>, i: int) -> int {
    nt_end(data, nt_end(data, i))
}

/// The position of the key/value pair number `k`, counted from zero, where
/// the first one stands at `i`.
pub open spec fn kv_pos(data: Seq<u8>, i: int, k: nat) -> int
    decreases k,
{
    if k == 0 {
        i
    } else {
        kv_end(data, kv_pos(data, i, (k - 1) as nat))
    }
}

/// The full status that stands at `i`: eleven bytes that are passed over,
/// ten key/value pairs of which the values are taken in order, eleven bytes
/// more that are passed over, and the group of player names.
pub open spec fn full_at(data: Seq<u8>, i: int) -> Result<QueryFullView, ErrKind> {
    let p = i + 11;
    match plugins_of(kv_value(data, kv_pos(data, p, 4))) {
        Err(k) => Err(k),
        Ok(plugins) => Ok(
            QueryFullView {
                hostname: kv_value(data, kv_pos(data, p, 0)),
                gametype: kv_value(data, kv_pos(data, p, 1)),
                game_id: kv_value(data, kv_pos(data, p, 2)),
                version: kv_value(data, kv_pos(data, p, 3)),
                plugins,
                map: kv_value(data, kv_pos(data, p, 5)),
                numplayers: kv_value(data, kv_pos(data, p, 6)),
                maxplayers: kv_value(data, kv_pos(data, p, 7)),
                hostport: kv_value(data, kv_pos(data, p, 8)),
                hostip: kv_value(data, kv_pos(data, p, 9)),
                players: group_texts(data, kv_pos(data, p, 10) + 11),
            },
        ),
    }
}

/// The value of the key/value pair at the cursor.
fn read_value(udp_reader: &mut UdpReader) -> (value: String)
    requires
        old(udp_reader).has_room(2),
    ensures
        value@ == kv_value(old(udp_reader).datagram(), old(udp_reader).index()),
        final(udp_reader).index() == kv_end(old(udp_reader).datagram(), old(udp_reader).index()),
        final(udp_reader).datagram() == old(udp_reader).datagram(),
        final(udp_reader).reach() <= old(udp_reader).reach() + 2,
{
    match udp_reader.read_nt_kv() {
        Ok(kv) => kv.1,
        Err(_) => String::new(),
    }
}

/// Read the full status at the cursor.
pub fn read_query_full(udp_reader: &mut UdpReader) -> (r: Result<QueryFull, MspErr>)
    requires
        old(udp_reader).has_room(44),
    ensures
        match r {
            Ok(q) => full_at(old(udp_reader).datagram(), old(udp_reader).index()) == Ok::<
                _,
                ErrKind,
            >(q@),
            Err(e) => full_at(old(udp_reader).datagram(), old(udp_reader).index()) == Err::<
                QueryFullView,
                _,
            >(e.kind()),
        },
        final(udp_reader).datagram() == old(udp_reader).datagram(),
{
    proof {
        reveal_with_fuel(kv_pos, 11);
    }
    // Drop meaningless byte padding
    udp_reader.set_current_idx_forward(11);
    let hostname = read_value(udp_reader);
    let gametype = read_value(udp_reader);
    let game_id = read_value(udp_reader);
    let version = read_value(udp_reader);
    let plugin_str = read_value(udp_reader);
    let plugins = match resolve_plugin(plugin_str.as_str()) {
        Ok(p) => p,
        Err(e) => { return Err(e); },
    };
    let map = read_value(udp_reader);
    let numplayers = read_value(udp_reader);
    let maxplayers = read_value(udp_reader);
    let hostport = read_value(udp_reader);
    let hostip = read_value(udp_reader);
    // The second zero byte that ends the key/value section, and ten bytes of padding
    udp_reader.set_current_idx_forward(10 + 1);
    let players = match udp_reader.read_nt_str_group() {
        Ok(p) => p,
        Err(e) => { return Err(e); },
    };
    Ok(
        QueryFull {
            hostname,
            gametype,
            game_id,
            version,
            plugins,
            map,
            numplayers,
            maxplayers,
            hostport,
            hostip,
            players,
        },
    )
}

/// The full status in a stat reply.
pub open spec fn query_full_of(data: Seq<u8>) -> Result<QueryFullView, ErrKind> {
    if stat_header_ok(data) {
        full_at(data, 5)
    } else {
        Err(ErrKind::Data)
    }
}

/// Decode the reply to a full stat request.
pub fn query_full_status(datagram: Vec<u8>) -> (r: Result<QueryFull, MspErr>)
    ensures
        match r {
            Ok(q) => query_full_of(datagram@) == Ok::<_, ErrKind>(q@),
            Err(e) => query_full_of(datagram@) == Err::<QueryFullView, _>(e.kind()),
        },
{
    let mut udp_reader = match open_stat_reply(datagram) {
        Ok(reader) => reader,
        Err(e) => { return Err(e); },
    };
    read_query_full(&mut udp_reader)
}

} // verus!
