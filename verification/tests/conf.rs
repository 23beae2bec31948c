use msp::{Conf, ErrKind, MspErr, SocketConf};

#[test]
fn conf_from_str_reads_host_and_port() {
    let conf = Conf::create_from_str("192.168.1.10:25565").unwrap();
    assert_eq!(conf.host, "192.168.1.10");
    assert_eq!(conf.port, 25565);
    assert_eq!(conf.socket_conf, SocketConf::default());
    assert_eq!(Conf::create_from_str("host:-1").unwrap_err().kind(), ErrKind::Data);
}

#[test]
fn conf_constructors() {
    let conf = Conf::create("www.example.com");
    assert_eq!(conf.host, "www.example.com");
    assert_eq!(conf.port, 25565);
    assert_eq!(conf.socket_conf, SocketConf::default());

    let conf = Conf::create_with_port(" www.example.com\t\n", 19132);
    assert_eq!(conf.host, "www.example.com");
    assert_eq!(conf.port, 19132);

    let conf = Conf::create_from_str("www.example.com:25565").unwrap();
    assert_eq!(conf.host, "www.example.com");
    assert_eq!(conf.port, 25565);

    let conf = Conf::create_from_str("  www.example.com : 80 ").unwrap();
    assert_eq!((conf.host.as_str(), conf.port), ("www.example.com", 80));
    let conf = Conf::create_from_str(":+0").unwrap();
    assert_eq!((conf.host.as_str(), conf.port), ("", 0));
}

#[test]
fn conf_from_str_errors() {
    for bad in ["25565", "", "a:b:1", "www.example.com:-1", "www.example.com:65536",
        "www.example.com:", "www.example.com:port", "::1"]
    {
        assert_eq!(Conf::create_from_str(bad).unwrap_err().kind(), ErrKind::Data, "{:?}", bad);
    }
}

#[test]
fn socket_conf_default() {
    let conf = SocketConf::default();
    assert_eq!(conf.read_time_out, None);
    assert_eq!(conf.write_timeout, None);
    assert_eq!(conf.rep_udp_ipv4, [0, 0, 0, 0]);
    assert_eq!(conf.rep_udp_port, 5000);
}

#[test]
fn errors_have_a_kind_and_a_message() {
    let e = MspErr::data("shape");
    assert_eq!(e.kind(), ErrKind::Data);
    assert_eq!(e.to_string(), "shape");
    assert!(matches!(e, MspErr::DataErr(_)));
    let e = MspErr::internal("clock");
    assert_eq!((e.kind(), e.to_string()), (ErrKind::Internal, "clock".to_string()));
    let e = MspErr::no_impl("ipv6");
    assert_eq!((e.kind(), e.to_string()), (ErrKind::NoImpl, "ipv6".to_string()));
    let io = std::io::Error::new(std::io::ErrorKind::TimedOut, "timed out");
    let e = MspErr::from(io);
    assert_eq!(e.kind(), ErrKind::Io);
    assert_eq!(e.to_string(), "timed out");
    assert!(matches!(e, MspErr::IoErr(_)));
}
