pub mod bedrock_server;
pub mod legacy_server;
pub mod netty_server;
pub mod regular_server;

pub use bedrock_server::{
    build_bedrock_request_packet, build_bedrock_server, process_bedrock_server_bufs, BedrockServer,
};
pub use legacy_server::{
    build_beta_legacy_request_packet, build_beta_legacy_server, build_legacy_request_packet,
    build_legacy_server, process_beta_legacy_server_bufs, process_beta_legacy_server_info,
    process_legacy_server_bufs, process_legacy_server_info, LegacyBetaServer, LegacyServer,
};
pub use netty_server::{build_netty_request_packet, NettyServer};
pub use regular_server::{
    build_handshake, build_handshake_packet, build_ping_request_packet,
    build_status_request_packet, enforces_secure_chat_default, frame_status_response,
    get_server_ping, parse_handshake_packet, ping_default, ping_request_packet,
    read_ping_response, read_status_response, server_ping, Description, DescriptionExtra,
    ForgeChannel, ForgeData, ForgeMod, Handshake, Player, Players, Server, Version,
};
