use crate::error::{ErrKind, MspErr};
use crate::number::{field_i32, field_u16, field_u8, int32_of, uint16_of, uint8_of};
use crate::share::{byte_at, window, UdpReader};
use crate::text::{split_spec, split_str, string_views};
use crate::utf8::{from_utf8_lossy, lossy_text};
use vstd::prelude::*;
use vstd::utf8::{decode_utf8, valid_utf8};
use vstd::slice::slice_to_vec;

verus! {

/// Bedrock server info type.
///
/// `motd_line_1` is shown above `motd_line_2` in the server list.
#[derive(Debug)]
pub struct BedrockServer {
    /// MCPE or MCEE(Education Edition) for Education Edition
    pub edition: String,
    /// MOTD line 1 for upstream display.
    pub motd_line_1: String,
    /// Protocol version.
    pub protocol_version: i32,
    /// Version name.
    pub version_name: String,
    /// Online players.
    pub online_players: i32,
    /// Max players.
    pub max_players: i32,
    /// Server unique id.
    pub server_id: String,
    /// MOTD line 2 for downstream display.
    pub motd_line_2: String,
    /// Game mode.
    pub game_mode: String,
    /// Game mode id.
    pub game_mode_id: u8,
    /// Ports required to connect to the server using IPv4.
    pub port_ipv4: u16,
    /// Ports required to connect to the server using IPv6.
    pub port_ipv6: u16,
}

/// A `BedrockServer` with its strings as character sequences.
pub struct BedrockServerView {
    pub edition: Seq<char>,
    pub motd_line_1: Seq<char>,
    pub protocol_version: i32,
    pub version_name: Seq<char>,
    pub online_players: i32,
    pub max_players: i32,
    pub server_id: Seq<char>,
    pub motd_line_2: Seq<char>,
    pub game_mode: Seq<char>,
    pub game_mode_id: u8,
    pub port_ipv4: u16,
    pub port_ipv6: u16,
}

impl View for BedrockServer {
    type V = BedrockServerView;

    open spec fn view(&self) -> BedrockServerView {
        BedrockServerView {
            edition: self.edition@,
            motd_line_1: self.motd_line_1@,
            protocol_version: self.protocol_version,
            version_name: self.version_name@,
            online_players: self.online_players,
            max_players: self.max_players,
            server_id: self.server_id@,
            motd_line_2: self.motd_line_2@,
            game_mode: self.game_mode@,
            game_mode_id: self.game_mode_id,
            port_ipv4: self.port_ipv4,
            port_ipv6: self.port_ipv6,
        }
    }
}

/// The 16 bytes that mark a RakNet offline message.
pub open spec fn magic() -> Seq<u8> {
    seq![
        0x00u8,
        0xFFu8,
        0xFFu8,
        0x00u8,
        0xFEu8,
        0xFEu8,
        0xFEu8,
        0xFEu8,
        0xFDu8,
        0xFDu8,
        0xFDu8,
        0xFDu8,
        0x12u8,
        0x34u8,
        0x56u8,
        0x78u8,
    ]
}

/// An unconnected ping: the byte `0x01`, eight zero bytes of time, the magic.
pub open spec fn bedrock_request() -> Seq<u8> {
    seq![0x01u8] + Seq::new(8, |i: int| 0u8) + magic()
}

/// The unconnected ping that a Bedrock server answers.
pub fn build_bedrock_request_packet() -> (packet: Vec<u8>)
    ensures
        packet@ == bedrock_request(),
{
    let magic_bytes: [u8; 16] = [
        0x00,
        0xFF,
        0xFF,
        0x00,
        0xFE,
        0xFE,
        0xFE,
        0xFE,
        0xFD,
        0xFD,
        0xFD,
        0xFD,
        0x12,
        0x34,
        0x56,
        0x78,
    ];
    let mut packet: Vec<u8> = Vec::new();
    packet.push(0x01);
    let mut i: usize = 0;
    while i < 8
        invariant
            i <= 8,
            packet@ == seq![0x01u8] + Seq::new(i as nat, |k: int| 0u8),
        decreases 8 - i,
    {
        packet.push(0x00);
        i += 1;
    }
    let mut j: usize = 0;
    while j < 16
        invariant
            j <= 16,
            magic_bytes@ == magic(),
            packet@ == seq![0x01u8] + Seq::new(8, |k: int| 0u8) + magic().take(j as int),
        decreases 16 - j,
    {
        packet.push(magic_bytes[j]);
        j += 1;
    }
    packet
}

/// Whether every number among the fields reads as what it should be.
pub open spec fn bedrock_numbers_parse(f: Seq<Seq<char>>) -> bool {
    &&& int32_of(f[2]) is Some
    &&& int32_of(f[4]) is Some
    &&& int32_of(f[5]) is Some
    &&& uint8_of(f[9]) is Some
    &&& (f.len() > 10 ==> uint16_of(f[10]) is Some)
    &&& (f.len() > 11 ==> uint16_of(f[11]) is Some)
}

/// The record that the fields of a server id string make. Fewer than ten
/// fields are a `Data` error, and so is a number that does not parse.
/// Without an eleventh field the IPv4 port is `port`; without a twelfth the
/// IPv6 port is zero.
pub open spec fn bedrock_from_fields(f: Seq<Seq<char>>, port: u16) -> Result<
    BedrockServerView,
    ErrKind,
> {
    if f.len() < 10 || !bedrock_numbers_parse(f) {
        Err(ErrKind::Data)
    } else {
        Ok(
            BedrockServerView {
                edition: f[0],
                motd_line_1: f[1],
                protocol_version: int32_of(f[2])->0 as i32,
                version_name: f[3],
                online_players: int32_of(f[4])->0 as i32,
                max_players: int32_of(f[5])->0 as i32,
                server_id: f[6],
                motd_line_2: f[7],
                game_mode: f[8],
                game_mode_id: uint8_of(f[9])->0 as u8,
                port_ipv4: if f.len() > 10 {
                    uint16_of(f[10])->0 as u16
                } else {
                    port
                },
                port_ipv6: if f.len() > 11 {
                    uint16_of(f[11])->0 as u16
                } else {
                    0
                },
            },
        )
    }
}

/// The record in a server id string, whose fields semicolons divide.
pub open spec fn bedrock_from_info(info: Seq<char>, port: u16) -> Result<
    BedrockServerView,
    ErrKind,
> {
    bedrock_from_fields(split_spec(info, ';'), port)
}

/// The number of bytes of the server id string, as the reply states it.
pub open spec fn bedrock_info_len(bufs: Seq<u8>) -> int {
    byte_at(bufs, 33) * 256 + byte_at(bufs, 34)
}

/// The record in an unconnected pong: the byte `0x1C`, eight bytes of time,
/// eight of the server's id and sixteen of magic, none of which is looked
/// at, then the length of the server id string as two bytes, the high byte
/// first, and the string.
pub open spec fn bedrock_from_bytes(bufs: Seq<u8>, port: u16) -> Result<
    BedrockServerView,
    ErrKind,
> {
    if byte_at(bufs, 0) != 0x1C {
        Err(ErrKind::Data)
    } else {
        bedrock_from_info(lossy_text(bedrock_info_bytes(bufs)), port)
    }
}

/// The bytes of the server id string in a reply.
pub open spec fn bedrock_info_bytes(bufs: Seq<u8>) -> Seq<u8> {
    window(bufs, 35, 35 + bedrock_info_len(bufs))
}

/// The record in an unconnected pong whose server id string is valid UTF-8.
pub open spec fn bedrock_from_utf8_bytes(bufs: Seq<u8>, port: u16) -> Result<
    BedrockServerView,
    ErrKind,
> {
    if byte_at(bufs, 0) != 0x1C {
        Err(ErrKind::Data)
    } else {
        bedrock_from_info(decode_utf8(bedrock_info_bytes(bufs)), port)
    }
}

/// Make a `BedrockServer` of a server id string; `port` is the port that was
/// asked.
pub fn build_bedrock_server(server_info: &str, port: u16) -> (r: Result<BedrockServer, MspErr>)
    ensures
        match r {
            Ok(server) => bedrock_from_info(server_info@, port) == Ok::<_, ErrKind>(server@),
            Err(e) => bedrock_from_info(server_info@, port) == Err::<BedrockServerView, _>(
                e.kind(),
            ),
        },
{
    let f = split_str(server_info, ';');
    if f.len() < 10 {
        return Err(
            MspErr::data("Expected return at least 10 parts of server information"),
        );
    }
    proof {
        let views = string_views(f@);
    }
    let protocol_version = match field_i32(f[2].as_str()) {
        Ok(v) => v,
        Err(e) => { return Err(e); },
    };
    let online_players = match field_i32(f[4].as_str()) {
        Ok(v) => v,
        Err(e) => { return Err(e); },
    };
    let max_players = match field_i32(f[5].as_str()) {
        Ok(v) => v,
        Err(e) => { return Err(e); },
    };
    let game_mode_id = match field_u8(f[9].as_str()) {
        Ok(v) => v,
        Err(e) => { return Err(e); },
    };
    let port_ipv4 = if f.len() > 10 {
        match field_u16(f[10].as_str()) {
            Ok(v) => v,
            Err(e) => { return Err(e); },
        }
    } else {
        port
    };
    let port_ipv6 = if f.len() > 11 {
        match field_u16(f[11].as_str()) {
            Ok(v) => v,
            Err(e) => { return Err(e); },
        }
    } else {
        0
    };
    Ok(
        BedrockServer {
            edition: f[0].clone(),
            motd_line_1: f[1].clone(),
            protocol_version,
            version_name: f[3].clone(),
            online_players,
            max_players,
            server_id: f[6].clone(),
            motd_line_2: f[7].clone(),
            game_mode: f[8].clone(),
            game_mode_id,
            port_ipv4,
            port_ipv6,
        },
    )
}

/// Decode the reply of a Bedrock server; `port` is the port that was asked.
/// Where the server id string is valid UTF-8 it is read as the text that it
/// encodes.
pub fn process_bedrock_server_bufs(bufs: &[u8], port: u16) -> (r: Result<BedrockServer, MspErr>)
    ensures
        match r {
            Ok(server) => bedrock_from_bytes(bufs@, port) == Ok::<_, ErrKind>(server@),
            Err(e) => bedrock_from_bytes(bufs@, port) == Err::<BedrockServerView, _>(e.kind()),
        },
        valid_utf8(bedrock_info_bytes(bufs@)) ==> match r {
            Ok(server) => bedrock_from_utf8_bytes(bufs@, port) == Ok::<_, ErrKind>(server@),
            Err(e) => bedrock_from_utf8_bytes(bufs@, port) == Err::<BedrockServerView, _>(
                e.kind(),
            ),
        },
{
    let mut udp_reader = UdpReader::create_with_idx(slice_to_vec(bufs), 0);
    let first = match udp_reader.read_bufs(1) {
        Ok(b) => b,
        Err(e) => { return Err(e); },
    };
    if first[0] != 0x1C {
        return Err(MspErr::data("Packet response excepted start with: 0x1C"));
    }
    // time
    udp_reader.set_current_idx_forward(8);
    let _server_guid = match udp_reader.read_bufs(8) {
        Ok(b) => b,
        Err(e) => { return Err(e); },
    };
    let _magic_bytes = match udp_reader.read_bufs(16) {
        Ok(b) => b,
        Err(e) => { return Err(e); },
    };
    let server_info_len: usize = match udp_reader.read_port() {
        Ok(len) => len as usize,
        Err(e) => { return Err(e); },
    };
    let server_info_buf = match udp_reader.read_bufs(server_info_len) {
        Ok(b) => b,
        Err(e) => { return Err(e); },
    };
    let server_info = from_utf8_lossy(server_info_buf.as_slice());
    build_bedrock_server(server_info.as_str(), port)
}

} // verus!
