use msp::server::{build_bedrock_request_packet, build_bedrock_server, process_bedrock_server_bufs};
use msp::ErrKind;

fn pong(info: &[u8]) -> Vec<u8> {
    let mut reply = vec![0x1C];
    reply.extend_from_slice(&[1, 2, 3, 4, 5, 6, 7, 8]);
    reply.extend_from_slice(&[9, 9, 9, 9, 9, 9, 9, 9]);
    reply.extend_from_slice(&[
        0x00, 0xFF, 0xFF, 0x00, 0xFE, 0xFE, 0xFE, 0xFE, 0xFD, 0xFD, 0xFD, 0xFD, 0x12, 0x34, 0x56,
        0x78,
    ]);
    reply.extend_from_slice(&(info.len() as u16).to_be_bytes());
    reply.extend_from_slice(info);
    reply
}

#[test]
fn bedrock_request_is_an_unconnected_ping() {
    assert_eq!(
        build_bedrock_request_packet(),
        vec![
            0x01, 0, 0, 0, 0, 0, 0, 0, 0, 0x00, 0xFF, 0xFF, 0x00, 0xFE, 0xFE, 0xFE, 0xFE, 0xFD,
            0xFD, 0xFD, 0xFD, 0x12, 0x34, 0x56, 0x78
        ]
    );
}

#[test]
fn bedrock_reply_is_decoded() {
    let info = "MCPE;Dedicated Server;422;1.17.11;0;10;13253860892328930865;Bedrock level;Survival;1;19132;19133";
    let server = process_bedrock_server_bufs(&pong(info.as_bytes()), 7).unwrap();
    assert_eq!(server.edition, "MCPE");
    assert_eq!(server.motd_line_1, "Dedicated Server");
    assert_eq!(server.protocol_version, 422);
    assert_eq!(server.version_name, "1.17.11");
    assert_eq!(server.online_players, 0);
    assert_eq!(server.max_players, 10);
    assert_eq!(server.server_id, "13253860892328930865");
    assert_eq!(server.motd_line_2, "Bedrock level");
    assert_eq!(server.game_mode, "Survival");
    assert_eq!(server.game_mode_id, 1);
    assert_eq!(server.port_ipv4, 19132);
    assert_eq!(server.port_ipv6, 19133);
    let same = build_bedrock_server(info, 7).unwrap();
    assert_eq!(same.port_ipv4, 19132);
}

#[test]
fn bedrock_ports_have_defaults() {
    let ten = "MCPE;m;422;1.17;0;10;id;level;Survival;1";
    let server = build_bedrock_server(ten, 19200).unwrap();
    assert_eq!(server.port_ipv4, 19200);
    assert_eq!(server.port_ipv6, 0);
    let eleven = "MCPE;m;422;1.17;0;10;id;level;Survival;1;5";
    let server = build_bedrock_server(eleven, 19200).unwrap();
    assert_eq!(server.port_ipv4, 5);
    assert_eq!(server.port_ipv6, 0);
    // more fields than twelve are passed over
    let many = "MCPE;m;422;1.17;0;10;id;level;Survival;1;5;6;x;y";
    let server = build_bedrock_server(many, 19200).unwrap();
    assert_eq!((server.port_ipv4, server.port_ipv6), (5, 6));
}

#[test]
fn bedrock_errors() {
    let info = "MCPE;m;422;1.17;0;10;id;level;Survival;1";
    let mut wrong_first = pong(info.as_bytes());
    wrong_first[0] = 0x1D;
    assert_eq!(process_bedrock_server_bufs(&wrong_first, 1).unwrap_err().kind(), ErrKind::Data);
    assert_eq!(process_bedrock_server_bufs(&[], 1).unwrap_err().kind(), ErrKind::Data);
    assert_eq!(build_bedrock_server("MCPE;m;422;1.17;0;10;id;level;Survival", 1).unwrap_err().kind(), ErrKind::Data);
    assert_eq!(process_bedrock_server_bufs(&pong(b""), 1).unwrap_err().kind(), ErrKind::Data);
    for bad in ["MCPE;m;x;1.17;0;10;id;level;Survival;1", "MCPE;m;422;1.17;;10;id;level;Survival;1",
        "MCPE;m;422;1.17;0;1e3;id;level;Survival;1", "MCPE;m;422;1.17;0;10;id;level;Survival;256",
        "MCPE;m;422;1.17;0;10;id;level;Survival;1;65536", "MCPE;m;422;1.17;0;10;id;level;Survival;1;1;-1",
        "MCPE;m;422;1.17;0;10;id;level;Survival;1;"]
    {
        assert_eq!(build_bedrock_server(bad, 1).unwrap_err().kind(), ErrKind::Data, "{}", bad);
    }
}

#[test]
fn bedrock_text_that_is_no_utf8_is_replaced() {
    let mut info = b"MCPE;m".to_vec();
    info.push(0xFF);
    info.extend_from_slice(b";422;1.17;0;10;id;level;Survival;1");
    let server = process_bedrock_server_bufs(&pong(&info), 1).unwrap();
    assert_eq!(server.motd_line_1, "m\u{FFFD}");
}

#[test]
fn bedrock_reply_that_is_cut_reads_zero_bytes() {
    let info = "MCPE;m;422;1.17;0;10;id;level;Survival;1";
    let mut reply = pong(info.as_bytes());
    // the length says two bytes more than there are
    reply[34] += 2;
    assert_eq!(process_bedrock_server_bufs(&reply, 1).unwrap_err().kind(), ErrKind::Data);
    let info = "MCPE;m;422;1.17;0;10;id;level;Survival;1;";
    let mut reply = pong(info.as_bytes());
    reply[34] += 2;
    assert_eq!(process_bedrock_server_bufs(&reply, 1).unwrap_err().kind(), ErrKind::Data);
    let info = "MCPE;m;422;1.17;0;10;id;level;Survival;1;2;3;";
    let mut reply = pong(info.as_bytes());
    reply[34] += 2;
    let server = process_bedrock_server_bufs(&reply, 1).unwrap();
    assert_eq!(server.port_ipv6, 3);
}
