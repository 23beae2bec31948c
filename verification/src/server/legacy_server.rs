use crate::error::{ErrKind, MspErr};
use crate::number::{field_i32, int32_of};
use crate::text::{
    chars_of, occurs_at, split_spec, split_str, starts_with, str_views, strs_from,
};
use crate::utf16::{be_units, bufs_to_utf16_str, utf16_lossy};
use vstd::slice::slice_subrange;
use vstd::prelude::*;

verus! {

/// Legacy server info type.
#[derive(Debug)]
pub struct LegacyServer {
    /// Protocol version.
    pub protocol_version: i32,
    /// Server version.
    pub server_version: String,
    /// MOTD of the target server.
    pub motd: String,
    /// Online players.
    pub online_players: i32,
    /// Max players.
    pub max_players: i32,
}

/// A `LegacyServer` with its strings as character sequences.
pub struct LegacyServerView {
    pub protocol_version: i32,
    pub server_version: Seq<char>,
    pub motd: Seq<char>,
    pub online_players: i32,
    pub max_players: i32,
}

impl View for LegacyServer {
    type V = LegacyServerView;

    open spec fn view(&self) -> LegacyServerView {
        LegacyServerView {
            protocol_version: self.protocol_version,
            server_version: self.server_version@,
            motd: self.motd@,
            online_players: self.online_players,
            max_players: self.max_players,
        }
    }
}

/// Legacy beta server info type.
///
/// A server older than Legacy, used by not many people anymore.
#[derive(Debug)]
pub struct LegacyBetaServer {
    /// MOTD of the target server.
    pub motd: String,
    /// Online players.
    pub online_players: i32,
    /// Max players.
    pub max_players: i32,
}

/// A `LegacyBetaServer` with its string as a character sequence.
pub struct LegacyBetaServerView {
    pub motd: Seq<char>,
    pub online_players: i32,
    pub max_players: i32,
}

impl View for LegacyBetaServer {
    type V = LegacyBetaServerView;

    open spec fn view(&self) -> LegacyBetaServerView {
        LegacyBetaServerView {
            motd: self.motd@,
            online_players: self.online_players,
            max_players: self.max_players,
        }
    }
}

/// The record that five fields make: protocol version, server version, MOTD,
/// online players, max players. Another number of fields is a `Data` error,
/// and so is a number that does not parse.
pub open spec fn legacy_from_fields(f: Seq<Seq<char>>) -> Result<LegacyServerView, ErrKind> {
    if f.len() != 5 || int32_of(f[0]) is None || int32_of(f[3]) is None || int32_of(f[4])
        is None {
        Err(ErrKind::Data)
    } else {
        Ok(
            LegacyServerView {
                protocol_version: int32_of(f[0])->0 as i32,
                server_version: f[1],
                motd: f[2],
                online_players: int32_of(f[3])->0 as i32,
                max_players: int32_of(f[4])->0 as i32,
            },
        )
    }
}

/// The record that three fields make: MOTD, online players, max players.
/// Another number of fields is a `Data` error, and so is a number that does
/// not parse.
pub open spec fn beta_from_fields(f: Seq<Seq<char>>) -> Result<LegacyBetaServerView, ErrKind> {
    if f.len() != 3 || int32_of(f[1]) is None || int32_of(f[2]) is None {
        Err(ErrKind::Data)
    } else {
        Ok(
            LegacyBetaServerView {
                motd: f[0],
                online_players: int32_of(f[1])->0 as i32,
                max_players: int32_of(f[2])->0 as i32,
            },
        )
    }
}

/// Make a `LegacyServer` of the five fields of a reply.
pub fn build_legacy_server(data: Vec<&str>) -> (r: Result<LegacyServer, MspErr>)
    ensures
        match r {
            Ok(server) => legacy_from_fields(str_views(data@)) == Ok::<_, ErrKind>(server@),
            Err(e) => legacy_from_fields(str_views(data@)) == Err::<LegacyServerView, _>(e.kind()),
        },
{
    if data.len() != 5 {
        return Err(
            MspErr::data("Expected return is 5 parts of server information"),
        );
    }
    let protocol_version = match field_i32(data[0]) {
        Ok(v) => v,
        Err(e) => { return Err(e); },
    };
    let online_players = match field_i32(data[3]) {
        Ok(v) => v,
        Err(e) => { return Err(e); },
    };
    let max_players = match field_i32(data[4]) {
        Ok(v) => v,
        Err(e) => { return Err(e); },
    };
    Ok(
        LegacyServer {
            protocol_version,
            server_version: String::from_str(data[1]),
            motd: String::from_str(data[2]),
            online_players,
            max_players,
        },
    )
}

/// Make a `LegacyBetaServer` of the three fields of a reply.
pub fn build_beta_legacy_server(data: Vec<&str>) -> (r: Result<LegacyBetaServer, MspErr>)
    ensures
        match r {
            Ok(server) => beta_from_fields(str_views(data@)) == Ok::<_, ErrKind>(server@),
            Err(e) => beta_from_fields(str_views(data@)) == Err::<LegacyBetaServerView, _>(
                e.kind(),
            ),
        },
{
    if data.len() != 3 {
        return Err(
            MspErr::data("Expected return is 3 parts of server information"),
        );
    }
    let online_players = match field_i32(data[1]) {
        Ok(v) => v,
        Err(e) => { return Err(e); },
    };
    let max_players = match field_i32(data[2]) {
        Ok(v) => v,
        Err(e) => { return Err(e); },
    };
    Ok(LegacyBetaServer { motd: String::from_str(data[0]), online_players, max_players })
}

/// The two characters that a legacy reply begins with: the section sign and
/// the digit one.
pub open spec fn legacy_marker() -> Seq<char> {
    seq!['\u{A7}', '1']
}

/// The record in the text of a legacy reply: the marker, then six fields
/// divided by null characters, of which the first is left out.
pub open spec fn legacy_from_info(info: Seq<char>) -> Result<LegacyServerView, ErrKind> {
    if occurs_at(info, legacy_marker(), 0) {
        legacy_from_fields(split_spec(info, '\0').skip(1))
    } else {
        Err(ErrKind::Data)
    }
}

/// The record in a legacy reply: the byte `0xFF`, two bytes of length that
/// are passed over, then the text in UTF-16 with the high byte first.
pub open spec fn legacy_from_bytes(bufs: Seq<u8>) -> Result<LegacyServerView, ErrKind> {
    if bufs.len() < 3 || bufs[0] != 0xFF || (bufs.len() - 3) % 2 != 0 {
        Err(ErrKind::Data)
    } else {
        legacy_from_info(utf16_lossy(be_units(bufs.skip(3))))
    }
}

/// Decode the text of a legacy reply.
pub fn process_legacy_server_info(server_info: &str) -> (r: Result<LegacyServer, MspErr>)
    ensures
        match r {
            Ok(server) => legacy_from_info(server_info@) == Ok::<_, ErrKind>(server@),
            Err(e) => legacy_from_info(server_info@) == Err::<LegacyServerView, _>(e.kind()),
        },
{
    let chars = chars_of(server_info);
    let marker: [char; 2] = ['\u{A7}', '1'];
    if !starts_with(chars.as_slice(), marker.as_slice()) {
        return Err(MspErr::data("Server info excepted start with the section sign and 1"));
    }
    let fields = split_str(server_info, '\0');
    build_legacy_server(strs_from(&fields, 1))
}

/// Decode the reply of a legacy or Netty server.
pub fn process_legacy_server_bufs(bufs: &[u8]) -> (r: Result<LegacyServer, MspErr>)
    ensures
        match r {
            Ok(server) => legacy_from_bytes(bufs@) == Ok::<_, ErrKind>(server@),
            Err(e) => legacy_from_bytes(bufs@) == Err::<LegacyServerView, _>(e.kind()),
        },
{
    if bufs.len() < 3 || bufs[0] != 0xFF {
        return Err(MspErr::data("Packet response excepted start with: 0xFF"));
    }
    let text = slice_subrange(bufs, 3, bufs.len());
    let server_info = match bufs_to_utf16_str(text) {
        Ok(s) => s,
        Err(e) => { return Err(e); },
    };
    process_legacy_server_info(server_info.as_str())
}

/// The record in the text of a beta reply: three fields divided by section
/// signs.
pub open spec fn beta_from_info(info: Seq<char>) -> Result<LegacyBetaServerView, ErrKind> {
    beta_from_fields(split_spec(info, '\u{A7}'))
}

/// The number of bytes that the text of a beta reply takes: twice the
/// number in its second and third byte.
pub open spec fn beta_text_len(bufs: Seq<u8>) -> int {
    2 * (bufs[1] * 256 + bufs[2])
}

/// The record in a beta reply: the byte `0xFF`, the length of the text in
/// UTF-16 code units as two bytes, the high byte first, and the text. What
/// follows the text is not read.
pub open spec fn beta_from_bytes(bufs: Seq<u8>) -> Result<LegacyBetaServerView, ErrKind> {
    if bufs.len() < 3 || bufs[0] != 0xFF || bufs.len() < 3 + beta_text_len(bufs) {
        Err(ErrKind::Data)
    } else {
        beta_from_info(utf16_lossy(be_units(bufs.subrange(3, 3 + beta_text_len(bufs)))))
    }
}

/// Decode the text of a beta reply.
pub fn process_beta_legacy_server_info(server_info: &str) -> (r: Result<
    LegacyBetaServer,
    MspErr,
>)
    ensures
        match r {
            Ok(server) => beta_from_info(server_info@) == Ok::<_, ErrKind>(server@),
            Err(e) => beta_from_info(server_info@) == Err::<LegacyBetaServerView, _>(e.kind()),
        },
{
    let fields = split_str(server_info, '\u{A7}');
    build_beta_legacy_server(strs_from(&fields, 0))
}

/// Decode the reply of a beta server.
pub fn process_beta_legacy_server_bufs(bufs: &[u8]) -> (r: Result<LegacyBetaServer, MspErr>)
    ensures
        match r {
            Ok(server) => beta_from_bytes(bufs@) == Ok::<_, ErrKind>(server@),
            Err(e) => beta_from_bytes(bufs@) == Err::<LegacyBetaServerView, _>(e.kind()),
        },
{
    if bufs.len() < 3 || bufs[0] != 0xFF {
        return Err(MspErr::data("Packet response excepted start with: 0xFF"));
    }
    let text_len: usize = 2 * ((bufs[1] as usize) * 256 + bufs[2] as usize);
    if bufs.len() - 3 < text_len {
        return Err(MspErr::data("Packet response is shorter than its length says"));
    }
    let text = slice_subrange(bufs, 3, 3 + text_len);
    let server_info = match bufs_to_utf16_str(text) {
        Ok(s) => s,
        Err(e) => { return Err(e); },
    };
    process_beta_legacy_server_info(server_info.as_str())
}

/// The request that a legacy server answers: `FE 01`.
pub fn build_legacy_request_packet() -> (packet: Vec<u8>)
    ensures
        packet@ == seq![0xFEu8, 0x01u8],
{
    let mut packet: Vec<u8> = Vec::new();
    packet.push(0xFE);
    packet.push(0x01);
    packet
}

/// The request that a beta server answers: the single byte `FE`.
pub fn build_beta_legacy_request_packet() -> (packet: Vec<u8>)
    ensures
        packet@ == seq![0xFEu8],
{
    let mut packet: Vec<u8> = Vec::new();
    packet.push(0xFE);
    packet
}

} // verus!
