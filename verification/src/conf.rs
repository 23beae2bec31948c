use crate::error::{ErrKind, MspErr};
use crate::number::{parse_u16, uint16_of};
use crate::text::{chars_of, split, split_spec, string_of, trim, trim_spec};
use std::time::Duration;
use vstd::prelude::*;

verus! {

/// Main struct used for configuring the connection.
///
/// By default, the port number for Java Edition is 25565,
/// and for Bedrock Edition (including Pocket Edition), it is 19132.
#[derive(Debug, Clone)]
pub struct Conf {
    /// Server IP address or a domain name.
    pub host: String,
    /// Server port.
    pub port: u16,
    /// See [SocketConf].
    pub socket_conf: SocketConf,
}

/// Additional socket configuration.
#[derive(Debug, Clone, PartialEq, Eq)]
pub struct SocketConf {
    /// Set the read timeout for socket.
    pub read_time_out: Option<Duration>,
    /// Set the write timeout for socket.
    pub write_timeout: Option<Duration>,
    /// The four octets of the IPv4 address that a UDP socket is bound to.
    /// The default value is the unspecified address, all zero.
    pub rep_udp_ipv4: [u8; 4],
    /// Specify the port for creating a UDP connection.
    /// The default value is 5000.
    pub rep_udp_port: u16,
}

impl SocketConf {
    /// Whether this is the default configuration: no timeouts, the
    /// unspecified address, port 5000.
    pub open spec fn is_default(&self) -> bool {
        &&& self.read_time_out is None
        &&& self.write_timeout is None
        &&& self.rep_udp_ipv4@ == seq![0u8, 0u8, 0u8, 0u8]
        &&& self.rep_udp_port == 5000
    }
}

impl Default for SocketConf {
    fn default() -> (r: Self)
        ensures
            r.is_default(),
    {
        let r = Self {
            read_time_out: None,
            write_timeout: None,
            rep_udp_ipv4: [0, 0, 0, 0],
            rep_udp_port: 5000,
        };
        r
    }
}

/// The host and port in an address of the form `host:port`: exactly one
/// colon, white space around either part passed over, and a port that reads
/// as an unsigned 16-bit decimal number.
pub open spec fn address_parts(addr: Seq<char>) -> Option<(Seq<char>, u16)> {
    let parts = split_spec(addr, ':');
    if parts.len() != 2 {
        None
    } else {
        match uint16_of(trim_spec(parts[1])) {
            Some(port) => Some((trim_spec(parts[0]), port as u16)),
            None => None,
        }
    }
}

impl Conf {
    /// Create a connection configuration using the default port.
    ///
    /// Default port is based on Java Edition(25565), to create a default port based on
    /// Bedrock Edition(19132), use [Conf::create_with_port] to manually specify it.
    pub fn create(host: &str) -> (r: Self)
        ensures
            r.host@ == trim_spec(host@),
            r.port == 25565,
            r.socket_conf.is_default(),
    {
        Self::create_with_port(host, 25565)
    }

    /// Create a connection configuration using the specified port.
    pub fn create_with_port(host: &str, port: u16) -> (r: Self)
        ensures
            r.host@ == trim_spec(host@),
            r.port == port,
            r.socket_conf.is_default(),
    {
        let chars = chars_of(host);
        let trimmed = trim(chars.as_slice());
        Self { host: string_of(trimmed.as_slice()), port, socket_conf: SocketConf::default() }
    }

    /// Create a connection configuration by using a string.
    ///
    /// The string is split at `:` into the host of the server and its port.
    /// Fails with `DataErr` where there are not exactly two parts, or where
    /// the port does not read as a `u16`.
    pub fn create_from_str(addr: &str) -> (r: Result<Self, MspErr>)
        ensures
            match r {
                Ok(conf) => address_parts(addr@) == Some((conf.host@, conf.port))
                    && conf.socket_conf.is_default(),
                Err(e) => address_parts(addr@) is None && e.kind() == ErrKind::Data,
            },
    {
        let chars = chars_of(addr);
        let addr_split = split(chars.as_slice(), ':');
        if addr_split.len() != 2 {
            return Err(MspErr::data("Invalid IPv4 socket address syntax"));
        }
        let host = trim(addr_split[0].as_slice());
        let port_text = trim(addr_split[1].as_slice());
        match parse_u16(port_text.as_slice()) {
            Some(port) => Ok(
                Self { host: string_of(host.as_slice()), port, socket_conf: SocketConf::default() },
            ),
            None => Err(MspErr::data("Invalid port")),
        }
    }
}

} // verus!
