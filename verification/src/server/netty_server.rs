use super::legacy_server::LegacyServer;
use crate::bytes::{be_bytes_of, push_be_u16, push_be_u32};
use crate::conf::Conf;
use crate::text::chars_of;
use crate::utf16::{be_bytes, encode_utf16, utf16_of};
use vstd::prelude::*;

verus! {

/// The alias of [LegacyServer] is identical in content.
pub type NettyServer = LegacyServer;

/// What a Netty request begins with: `FE 01 FA`, the number 11 as two bytes,
/// and the eleven characters of `MC|PingHost` in UTF-16 with the high byte
/// first.
pub open spec fn netty_magic() -> Seq<u8> {
    seq![
        0xFEu8,
        0x01u8,
        0xFAu8,
        0x00u8,
        0x0Bu8,
        0x00u8,
        0x4Du8,
        0x00u8,
        0x43u8,
        0x00u8,
        0x7Cu8,
        0x00u8,
        0x50u8,
        0x00u8,
        0x69u8,
        0x00u8,
        0x6Eu8,
        0x00u8,
        0x67u8,
        0x00u8,
        0x48u8,
        0x00u8,
        0x6Fu8,
        0x00u8,
        0x73u8,
        0x00u8,
        0x74u8,
    ]
}

/// The request that a Netty server answers. After the magic: seven plus the
/// number of UTF-16 code units of the host, as two bytes; the protocol
/// version `0x50`; the number of code units of the host, as two bytes; the
/// host in UTF-16; the port as four bytes. Every number has its high byte
/// first, and of a number that is too large for its two bytes only the low
/// sixteen bits are sent.
pub open spec fn netty_request(host: Seq<char>, port: u16) -> Seq<u8> {
    let units = utf16_of(host);
    netty_magic() + be_bytes_of(((7 + units.len()) % 0x1_0000) as int, 2) + seq![0x50u8] + be_bytes_of(
        (units.len() % 0x1_0000) as int,
        2,
    ) + be_bytes(units) + be_bytes_of(port as int, 4)
}

/// Build the request of the configured host and port for a Netty server.
pub fn build_netty_request_packet(conf: &Conf) -> (packet: Vec<u8>)
    ensures
        packet@ == netty_request(conf.host@, conf.port),
{
    let magic: [u8; 27] = [
        0xFE,
        0x01,
        0xFA,
        0x00,
        0x0B,
        0x00,
        0x4D,
        0x00,
        0x43,
        0x00,
        0x7C,
        0x00,
        0x50,
        0x00,
        0x69,
        0x00,
        0x6E,
        0x00,
        0x67,
        0x00,
        0x48,
        0x00,
        0x6F,
        0x00,
        0x73,
        0x00,
        0x74,
    ];
    let host_chars = chars_of(conf.host.as_str());
    let host_u16 = encode_utf16(host_chars.as_slice());
    let mut packet_data: Vec<u8> = Vec::new();
    let mut i: usize = 0;
    while i < 27
        invariant
            i <= 27,
            magic@ == netty_magic(),
            packet_data@ == netty_magic().take(i as int),
        decreases 27 - i,
    {
        packet_data.push(magic[i]);
        i += 1;
    }
    let units_low: u16 = (host_u16.len() % 0x1_0000) as u16;
    let rest_low: u16 = ((units_low as u32 + 7) % 0x1_0000) as u16;
    assert(rest_low == (7 + host_u16.len()) % 0x1_0000);
    push_be_u16(&mut packet_data, rest_low);
    // Protocol version
    packet_data.push(0x50);
    push_be_u16(&mut packet_data, units_low);
    let ghost before = packet_data@;
    let mut k: usize = 0;
    while k < host_u16.len()
        invariant
            k <= host_u16.len(),
            packet_data@ == before + be_bytes(host_u16@.take(k as int)),
        decreases host_u16.len() - k,
    {
        let unit = host_u16[k];
        packet_data.push((unit / 256) as u8);
        packet_data.push((unit % 256) as u8);
        k += 1;
    }
    // Server port
    push_be_u32(&mut packet_data, conf.port as u32);
    packet_data
}

} // verus!
