use msp::lan::{
    abstract_broadcast_message, listener_step, process_broadcast, LanAction, LanEvent, LanSource,
    LanStore, MAXIMUM_SERVERS, MULTICAST_ADDR, MULTICAST_PORT, SERVER_OFFLINE_TIMEOUT,
    STORE_CHECK_INTERVAL,
};
use msp::{ErrKind, LanAddr, LanServer};
use std::collections::hash_map::DefaultHasher;
use std::collections::HashMap;
use std::hash::{Hash, Hasher};

fn hash_of(server: &LanServer) -> u64 {
    let mut hasher = DefaultHasher::new();
    server.hash(&mut hasher);
    hasher.finish()
}

fn buffer_of(message: &[u8]) -> [u8; 256] {
    let mut buffer = [0u8; 256];
    buffer[..message.len()].copy_from_slice(message);
    buffer
}

#[test]
fn lan_servers_are_equal_by_address() {
    let addr = LanAddr::from_octets(192, 168, 1, 50, 12345);
    assert_eq!(addr.ip, 0xC0A80132);
    let a = LanServer::create(addr, "one".to_string(), 25571);
    let b = LanServer::create(addr, "another".to_string(), 25572);
    let c = LanServer::create(LanAddr::from_octets(192, 168, 1, 50, 12346), "one".to_string(), 25571);
    let d = LanServer::create(LanAddr::from_octets(192, 168, 1, 51, 12345), "one".to_string(), 25571);
    assert!(a == b);
    assert_eq!(hash_of(&a), hash_of(&b));
    assert_eq!(a.table_key(), b.table_key());
    assert_eq!(a.table_key(), 0xC0A80132_3039);
    assert!(a != c);
    assert!(a != d);
    assert_ne!(a.table_key(), c.table_key());
    assert_ne!(a.table_key(), d.table_key());
    let mut map = HashMap::new();
    map.insert(a, 1u64);
    map.insert(b, 2u64);
    assert_eq!(map.len(), 1);
}

#[test]
fn lan_announcement_is_published_and_evicted() {
    let buffer = buffer_of(b"[MOTD]My World[/MOTD][AD]25571[/AD]");
    let source = LanSource::V4(LanAddr::from_octets(192, 168, 1, 50, 12345));
    let server = process_broadcast(&buffer, source).unwrap().unwrap();
    assert_eq!(server.addr, LanAddr { ip: 0xC0A80132, port: 12345 });
    assert_eq!(server.motd, "My World");
    assert_eq!(server.port, 25571);

    // it is evicted at the first sweep that finds it older than the offline timeout
    let mut store = LanStore::new(10_000);
    store.observe(server, 10_000);
    assert_eq!(store.len(), 1);
    assert_eq!(store.sweep(12_000).unwrap(), false);
    assert_eq!(store.len(), 1);
    assert_eq!(store.sweep(14_000).unwrap(), false);
    assert_eq!(store.len(), 1);
    assert_eq!(store.sweep(14_001).unwrap(), true);
    assert_eq!(store.len(), 0);
}

#[test]
fn lan_announcement_parts() {
    assert_eq!(
        abstract_broadcast_message("[MOTD]My World[/MOTD][AD]25571[/AD]").unwrap(),
        ("My World".to_string(), 25571)
    );
    assert_eq!(
        abstract_broadcast_message("x[AD]1[/AD] [MOTD][/MOTD]\0\0").unwrap(),
        ("".to_string(), 1)
    );
    // the first of each marker counts
    assert_eq!(
        abstract_broadcast_message("[MOTD]a[MOTD]b[/MOTD]c[/MOTD][AD]7[/AD][AD]8[/AD]").unwrap(),
        ("a[MOTD]b".to_string(), 7)
    );
    assert_eq!(
        abstract_broadcast_message("[MOTD]\u{A7}a\u{4E2D}[/MOTD][AD]65535[/AD]").unwrap(),
        ("\u{A7}a\u{4E2D}".to_string(), 65535)
    );
}

#[test]
fn lan_announcement_errors() {
    for bad in ["[MOTD]a[/MOTD][AD]x[/AD]", "[MOTD]a[/MOTD][AD]65536[/AD]",
        "[MOTD]a[/MOTD][AD]-1[/AD]", "[MOTD]a[/MOTD][AD][/AD]", "[/MOTD][MOTD][AD]1[/AD]",
        "[MOTD]a[/MOTD][/AD][AD]1", "[MOTD]a[/MOTD][AD]1", "a[/MOTD][AD]1[/AD]", ""]
    {
        assert_eq!(abstract_broadcast_message(bad).unwrap_err().kind(), ErrKind::Data, "{:?}", bad);
    }
}

#[test]
fn listener_decisions() {
    let v4 = LanSource::V4(LanAddr::from_octets(10, 0, 0, 1, 4445));
    // not UTF-8: stop with an internal error
    let mut buffer = buffer_of(b"[MOTD]a[/MOTD][AD]1[/AD]");
    buffer[200] = 0xFF;
    assert_eq!(process_broadcast(&buffer, v4).unwrap_err().kind(), ErrKind::Internal);
    // a marker is missing: go on without a word
    let buffer = buffer_of(b"[MOTD]a[/MOTD][AD]1");
    assert!(process_broadcast(&buffer, v4).unwrap().is_none());
    assert!(process_broadcast(&buffer, LanSource::V6).unwrap().is_none());
    assert!(process_broadcast(&[], v4).unwrap().is_none());
    // all markers, but no port: stop with a data error
    let buffer = buffer_of(b"[MOTD]a[/MOTD][AD]port[/AD]");
    assert_eq!(process_broadcast(&buffer, v4).unwrap_err().kind(), ErrKind::Data);
    assert_eq!(process_broadcast(&buffer, LanSource::V6).unwrap_err().kind(), ErrKind::Data);
    let buffer = buffer_of(b"[/AD][AD][/MOTD][MOTD]");
    assert_eq!(process_broadcast(&buffer, v4).unwrap_err().kind(), ErrKind::Data);
    // a good announcement from an IPv6 address
    let buffer = buffer_of(b"[MOTD]a[/MOTD][AD]1[/AD]");
    let err = process_broadcast(&buffer, LanSource::V6).unwrap_err();
    assert_eq!(err.kind(), ErrKind::NoImpl);
    assert_eq!(err.to_string(), "Not impl for ipv6.");
}

#[test]
fn store_keeps_one_entry_for_each_address() {
    let a = LanAddr::from_octets(10, 0, 0, 1, 1);
    let b = LanAddr::from_octets(10, 0, 0, 2, 1);
    let mut store = LanStore::new(0);
    assert_eq!(store.len(), 0);
    assert_eq!(store.last_seen(a), None);
    store.observe(LanServer::create(a, "first".to_string(), 1), 100);
    store.observe(LanServer::create(b, "other".to_string(), 2), 200);
    store.observe(LanServer::create(a, "second".to_string(), 3), 300);
    assert_eq!(store.len(), 2);
    assert_eq!(store.last_seen(a), Some(300));
    assert_eq!(store.last_seen(b), Some(200));
    assert!(!store.is_full());
}

#[test]
fn store_sweeps_at_intervals() {
    assert_eq!((STORE_CHECK_INTERVAL, SERVER_OFFLINE_TIMEOUT, MAXIMUM_SERVERS), (4000, 2000, 100));
    assert_eq!((MULTICAST_ADDR, MULTICAST_PORT), ([224, 0, 2, 60], 4445));
    let a = LanAddr::from_octets(10, 0, 0, 1, 1);
    let b = LanAddr::from_octets(10, 0, 0, 2, 1);
    let c = LanAddr::from_octets(10, 0, 0, 3, 1);
    let mut store = LanStore::new(1000);
    store.observe(LanServer::create(a, "a".to_string(), 1), 1000);
    store.observe(LanServer::create(b, "b".to_string(), 1), 3001);
    // seen after the sweep's time: gone as well
    store.observe(LanServer::create(c, "c".to_string(), 1), 6000);
    // the interval has not gone by
    assert_eq!(store.sweep(5000).unwrap(), false);
    assert_eq!(store.len(), 3);
    // the clock went back
    assert_eq!(store.sweep(999).unwrap_err().kind(), ErrKind::Internal);
    assert_eq!(store.len(), 3);
    assert_eq!(store.sweep(5001).unwrap(), true);
    assert_eq!(store.len(), 1);
    assert_eq!(store.last_seen(a), None);
    assert_eq!(store.last_seen(b), Some(3001));
    assert_eq!(store.last_seen(c), None);
    // the next sweep counts from the last
    assert_eq!(store.sweep(9001).unwrap(), false);
    assert_eq!(store.sweep(9002).unwrap(), true);
    assert_eq!(store.len(), 0);
}

#[test]
fn store_is_bounded() {
    let mut store = LanStore::new(0);
    for i in 0..MAXIMUM_SERVERS {
        assert!(!store.is_full());
        store.observe(LanServer::create(LanAddr { ip: i as u32, port: 1 }, "m".to_string(), 1), 5);
    }
    assert!(store.is_full());
    assert_eq!(store.len(), 100);
    store.observe(LanServer::create(LanAddr { ip: 1000, port: 1 }, "m".to_string(), 1), 6);
    assert_eq!(store.len(), 100);
    assert_eq!(store.last_seen(LanAddr { ip: 1000, port: 1 }), None);
    // a server that is known is still noted
    store.observe(LanServer::create(LanAddr { ip: 7, port: 1 }, "m".to_string(), 1), 7);
    assert_eq!(store.last_seen(LanAddr { ip: 7, port: 1 }), Some(7));
}

#[test]
fn listener_steps() {
    let v4 = LanSource::V4(LanAddr::from_octets(10, 0, 0, 1, 4445));
    assert!(matches!(listener_step(LanEvent::Stopped), LanAction::Leave));
    assert!(matches!(listener_step(LanEvent::TimedOut), LanAction::Tell(None)));
    let failed = std::io::Error::new(std::io::ErrorKind::ConnectionReset, "reset");
    match listener_step(LanEvent::Failed(failed)) {
        LanAction::Fail(err) => {
            assert_eq!(err.kind(), ErrKind::Io);
            assert_eq!(err.to_string(), "reset");
        }
        other => panic!("{:?}", other),
    }
    let good = buffer_of(b"[MOTD]a[/MOTD][AD]1[/AD]").to_vec();
    match listener_step(LanEvent::Received(good.clone(), v4)) {
        LanAction::Tell(Some(server)) => {
            assert_eq!((server.motd.as_str(), server.port), ("a", 1));
        }
        other => panic!("{:?}", other),
    }
    match listener_step(LanEvent::Received(good, LanSource::V6)) {
        LanAction::Fail(err) => assert_eq!(err.kind(), ErrKind::NoImpl),
        other => panic!("{:?}", other),
    }
    let noise = buffer_of(b"hello").to_vec();
    assert!(matches!(listener_step(LanEvent::Received(noise, v4)), LanAction::Skip));
}

#[test]
fn store_gives_its_servers_in_order() {
    let mut store = LanStore::new(0);
    store.observe(LanServer::create(LanAddr::from_octets(10, 0, 0, 2, 1), "b".to_string(), 2), 1);
    store.observe(LanServer::create(LanAddr::from_octets(10, 0, 0, 1, 1), "a".to_string(), 1), 2);
    store.observe(LanServer::create(LanAddr::from_octets(10, 0, 0, 2, 1), "c".to_string(), 3), 3);
    let servers = store.servers();
    assert_eq!(servers.len(), 2);
    assert_eq!((servers[0].motd.as_str(), servers[0].port), ("b", 2));
    assert_eq!((servers[1].motd.as_str(), servers[1].port), ("a", 1));
}
