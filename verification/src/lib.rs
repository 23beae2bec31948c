//! A Minecraft server protocol client: the codecs of the seven protocols by
//! which a server tells its status.
//!
//! - Server List Ping, for Java Edition servers from 1.7 on
//! - Netty server ping, for 1.6
//! - Legacy server ping, for 1.4 to 1.5
//! - Beta legacy server ping, for beta 1.8 to 1.3
//! - Query, basic and full
//! - Ping via LAN, by which a world that is open to the local network
//!   announces itself
//! - RakNet, for Bedrock Edition servers
//!
//! Every function here works on plain values: a request is built as a vector
//! of bytes, and a reply is decoded from the bytes that arrived. Opening a
//! socket, sending and receiving is left to the caller, who hands over what
//! was received.
//!
//! ```no_run
//! use msp::server::{build_legacy_request_packet, process_legacy_server_bufs};
//! use std::io::{Read, Write};
//!
//! let mut socket = std::net::TcpStream::connect(("www.example.com", 25565)).unwrap();
//! socket.write_all(&build_legacy_request_packet()).unwrap();
//! let mut reply = Vec::new();
//! socket.read_to_end(&mut reply).unwrap();
//! let info = process_legacy_server_bufs(&reply).unwrap();
//! println!("{}", info.motd);
//! ```

pub mod bytes;
pub mod conf;
pub mod error;
pub mod lan;
pub mod number;
pub mod query;
pub mod server;
pub mod share;
pub mod text;
pub mod utf16;
pub mod utf8;
pub mod varint;

pub use conf::{Conf, SocketConf};
pub use error::{ErrKind, MspErr};
pub use lan::{LanAddr, LanServer};
pub use query::{ModPlugin, QueryBasic, QueryFull};
pub use server::{BedrockServer, LegacyBetaServer, LegacyServer, NettyServer, Server};
pub use varint::{decode_varint, encode_varint};
