use msp::server::{
    build_handshake, build_handshake_packet, build_ping_request_packet,
    build_status_request_packet, enforces_secure_chat_default, frame_status_response,
    get_server_ping, parse_handshake_packet, ping_default, ping_request_packet,
    read_ping_response, read_status_response, server_ping, Description, DescriptionExtra,
    Handshake, Players,
};
use msp::share::{get_server_current_time, time_from_reading};
use msp::{encode_varint, Conf, ErrKind};

#[test]
fn handshake_for_a_short_host() {
    let conf = Conf::create_with_port("a.b", 25565);
    let packet = build_handshake_packet(&conf);
    let body = vec![0xFF, 0xFF, 0xFF, 0xFF, 0x0F, 0x03, 0x61, 0x2E, 0x62, 0x63, 0xDD, 0x01];
    assert_eq!(&packet[2..], &body[..]);
    // the length counts the packet id and the twelve bytes of the body
    assert_eq!(packet[0], 0x0D);
    assert_eq!(packet[1], 0x00);
    assert_eq!(packet.len(), 14);
}

#[test]
fn handshake_carries_the_configured_port() {
    let packet = build_handshake_packet(&Conf::create_with_port("a.b", 19132));
    assert_eq!(&packet[11..13], &[0x4A, 0xBC]);
}

#[test]
fn handshake_round_trip() {
    for (version, host, port, next) in [(-1, "a.b", 25565u16, 1), (47, "", 0, 2),
        (i32::MIN, "\u{4E2D}\u{6587}.example", 65535, i32::MAX), (0, &"x".repeat(300), 1, 0)]
    {
        let sent = Handshake { protocol_version: version, host: host.to_string(), port, next_state: next };
        let packet = build_handshake(&sent);
        let got = parse_handshake_packet(&packet).unwrap();
        assert_eq!(got.protocol_version, version);
        assert_eq!(got.host, host);
        assert_eq!(got.port, port);
        assert_eq!(got.next_state, next);
    }
}

#[test]
fn handshake_that_is_out_of_shape_is_rejected() {
    let good = build_handshake_packet(&Conf::create_with_port("a.b", 25565));
    assert!(parse_handshake_packet(&good).is_ok());
    assert_eq!(parse_handshake_packet(&[]).unwrap_err().kind(), ErrKind::Data);
    assert_eq!(parse_handshake_packet(&good[..13]).unwrap_err().kind(), ErrKind::Data);
    let mut longer = good.clone();
    longer.push(0);
    assert_eq!(parse_handshake_packet(&longer).unwrap_err().kind(), ErrKind::Data);
    let mut wrong_id = good.clone();
    wrong_id[1] = 1;
    assert_eq!(parse_handshake_packet(&wrong_id).unwrap_err().kind(), ErrKind::Data);
    let mut wrong_len = good.clone();
    wrong_len[0] = 0x0B;
    assert_eq!(parse_handshake_packet(&wrong_len).unwrap_err().kind(), ErrKind::Data);
    let mut bad_host = good.clone();
    bad_host[8] = 0xFF;
    assert_eq!(parse_handshake_packet(&bad_host).unwrap_err().kind(), ErrKind::Internal);
    // a negative length of the host
    let mut negative = vec![0x00, 0x00, 0x01];
    negative.extend(encode_varint(-1));
    negative.extend_from_slice(&[0, 1, 1]);
    negative[0] = (negative.len() - 1) as u8;
    assert_eq!(parse_handshake_packet(&negative).unwrap_err().kind(), ErrKind::Data);
}

#[test]
fn status_request_is_two_bytes() {
    assert_eq!(build_status_request_packet(), vec![0x01, 0x00]);
}

#[test]
fn status_response_is_framed() {
    let json = "{\"version\":{\"name\":\"1.20\",\"protocol\":763}}";
    let mut response = encode_varint(json.len() as i32 + 3);
    response.push(0x00);
    response.extend(encode_varint(json.len() as i32));
    response.extend_from_slice(json.as_bytes());
    assert_eq!(frame_status_response(&response).unwrap(), Some((3, response.len())));
    assert_eq!(read_status_response(&response).unwrap().unwrap(), json);
    // every proper prefix asks for more
    for cut in 0..response.len() {
        assert_eq!(read_status_response(&response[..cut]).unwrap(), None, "cut at {}", cut);
    }
    // what follows is left alone
    let mut more = response.clone();
    more.extend_from_slice(&[9, 1, 0]);
    assert_eq!(frame_status_response(&more).unwrap(), Some((3, response.len())));
}

#[test]
fn status_response_errors() {
    // a VarInt of six bytes
    assert_eq!(
        frame_status_response(&[0x80, 0x80, 0x80, 0x80, 0x80, 0x00]).unwrap_err().kind(),
        ErrKind::Data
    );
    // a negative length
    let mut negative = vec![0x05, 0x00];
    negative.extend(encode_varint(-1));
    assert_eq!(frame_status_response(&negative).unwrap_err().kind(), ErrKind::Data);
    // a payload that is no UTF-8
    assert_eq!(read_status_response(&[0x04, 0x00, 0x02, 0xC3, 0x28]).unwrap_err().kind(), ErrKind::Internal);
    // an empty payload
    assert_eq!(read_status_response(&[0x02, 0x00, 0x00]).unwrap().unwrap(), "");
}

#[test]
fn ping_request_carries_the_time() {
    assert_eq!(
        ping_request_packet(0x0102030405060708),
        vec![0x09, 0x01, 1, 2, 3, 4, 5, 6, 7, 8]
    );
    assert_eq!(ping_request_packet(0), vec![0x09, 0x01, 0, 0, 0, 0, 0, 0, 0, 0]);
    assert_eq!(ping_request_packet(u64::MAX), vec![0x09, 0x01, 255, 255, 255, 255, 255, 255, 255, 255]);
    let (sent_at, packet) = build_ping_request_packet().unwrap();
    assert_eq!(packet, ping_request_packet(sent_at));
    // the clock reads a time of this century
    assert!(sent_at > 1_600_000_000_000);
    let now = get_server_current_time().unwrap();
    assert!(now >= sent_at && now - sent_at < 60_000);
}

#[test]
fn clock_readings_become_times() {
    assert_eq!(time_from_reading(Some(0)).unwrap(), 0);
    assert_eq!(time_from_reading(Some(u64::MAX as u128)).unwrap(), u64::MAX);
    assert_eq!(time_from_reading(Some(u64::MAX as u128 + 1)).unwrap_err().kind(), ErrKind::Internal);
    assert_eq!(time_from_reading(None).unwrap_err().kind(), ErrKind::Internal);
}

#[test]
fn ping_response_is_read() {
    let pong = [0x09, 0x01, 1, 2, 3, 4, 5, 6, 7, 8];
    assert_eq!(read_ping_response(&pong).unwrap(), Some(0x0102030405060708));
    for cut in 0..pong.len() {
        assert_eq!(read_ping_response(&pong[..cut]).unwrap(), None);
    }
    assert_eq!(
        read_ping_response(&[0x80, 0x80, 0x80, 0x80, 0x80, 0x00]).unwrap_err().kind(),
        ErrKind::Data
    );
}

#[test]
fn ping_is_the_time_between() {
    assert_eq!(server_ping(1000, 1000, 1042).unwrap(), 42);
    assert_eq!(server_ping(1000, 1000, 1000).unwrap(), 0);
    assert_eq!(server_ping(0, 0, u64::MAX).unwrap(), u64::MAX);
    assert_eq!(server_ping(1000, 1001, 1042).unwrap_err().kind(), ErrKind::Data);
    assert_eq!(server_ping(1000, 1000, 999).unwrap_err().kind(), ErrKind::Internal);
    assert_eq!(server_ping(1000, 1001, 999).unwrap_err().kind(), ErrKind::Data);
}

#[test]
fn server_ping_from_a_response() {
    let (sent_at, packet) = build_ping_request_packet().unwrap();
    // the server sends the request back
    let ping = get_server_ping(&packet, sent_at).unwrap().unwrap();
    assert!(ping < 60_000);
    assert_eq!(get_server_ping(&packet[..9], sent_at).unwrap(), None);
    assert_eq!(get_server_ping(&packet, sent_at + 1).unwrap_err().kind(), ErrKind::Data);
    // a time that lies ahead of the clock
    let ahead = ping_request_packet(u64::MAX);
    assert_eq!(get_server_ping(&ahead, u64::MAX).unwrap_err().kind(), ErrKind::Internal);
}

#[test]
fn status_defaults() {
    assert!(!enforces_secure_chat_default());
    assert_eq!(ping_default(), 0);
    let players = Players::default();
    assert_eq!((players.max, players.online, players.sample.len()), (0, 0, 0));
    let description = Description::default();
    assert!(description.text.is_empty() && description.extra.is_empty());
    let from_text = Description::from_text("A Minecraft Server".to_string());
    assert_eq!(from_text.text, "A Minecraft Server");
    assert!(from_text.extra.is_empty());
    let extra = DescriptionExtra::default();
    assert!(extra.color.is_empty() && extra.text.is_empty() && extra.extra.is_empty());
    assert!(!extra.bold && !extra.italic && !extra.underlined && !extra.strikethrough && !extra.obfuscated);
}
