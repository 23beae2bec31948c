use msp::share::UdpReader;
use msp::ErrKind;

#[test]
fn read_bufs_advances_by_exactly_n() {
    let data = vec![1u8, 2, 3, 4, 5];
    for start in 0..8usize {
        for n in 0..8usize {
            let mut reader = UdpReader::create_with_idx(data.clone(), start);
            let got = reader.read_bufs(n).unwrap();
            assert_eq!(got.len(), n);
            assert_eq!(reader.current_idx(), start + n);
            for k in 0..n {
                let expect = if start + k < data.len() { data[start + k] } else { 0 };
                assert_eq!(got[k], expect);
            }
        }
    }
}

#[test]
fn seek_back_past_the_start_is_a_data_error() {
    let mut reader = UdpReader::create_with_idx(vec![1, 2, 3], 2);
    assert_eq!(reader.set_current_idx_retreat(3).unwrap_err().kind(), ErrKind::Data);
    assert_eq!(reader.current_idx(), 2);
    reader.set_current_idx_retreat(2).unwrap();
    assert_eq!(reader.current_idx(), 0);
    reader.set_current_idx_forward(7);
    assert_eq!(reader.current_idx(), 7);
    reader.set_current_idx(1);
    assert_eq!(reader.current_idx(), 1);
}

#[test]
fn read_peeks_or_consumes() {
    let mut reader = UdpReader::create_with_idx(vec![9, 8], 0);
    assert_eq!(reader.read(false).unwrap(), 9);
    assert_eq!(reader.current_idx(), 0);
    assert_eq!(reader.read(true).unwrap(), 9);
    assert_eq!(reader.read(true).unwrap(), 8);
    assert_eq!(reader.read(true).unwrap(), 0);
    assert_eq!(reader.current_idx(), 3);
}

#[test]
fn read_port_is_big_endian() {
    let mut reader = UdpReader::create_with_idx(vec![0x63, 0xDD, 0x01], 0);
    assert_eq!(reader.read_port().unwrap(), 25565);
    assert_eq!(reader.read_port().unwrap(), 0x0100);
    assert_eq!(reader.current_idx(), 4);
}

#[test]
fn nt_str_stops_at_the_zero_byte() {
    let mut reader = UdpReader::create_with_idx(b"abc\0de\0".to_vec(), 0);
    assert_eq!(reader.read_nt_str().unwrap(), "abc");
    assert_eq!(reader.current_idx(), 4);
    assert_eq!(reader.read_nt_str().unwrap(), "de");
    assert_eq!(reader.current_idx(), 7);
    assert_eq!(reader.read_nt_str().unwrap(), "");
    assert_eq!(reader.current_idx(), 8);
}

#[test]
fn nt_str_without_a_zero_byte_ends_with_the_datagram() {
    let mut reader = UdpReader::create_with_idx(b"abc".to_vec(), 1);
    assert_eq!(reader.read_nt_str().unwrap(), "bc");
    assert_eq!(reader.current_idx(), 4);
}

#[test]
fn nt_str_mends_single_byte_section_signs() {
    // 0xA7 alone is what a server sends for the section sign in Latin-1
    let mut reader = UdpReader::create_with_idx(vec![b'a', 0xA7, b'b', 0], 0);
    assert_eq!(reader.read_nt_str().unwrap(), "a\u{A7}b");
    // a well-formed section sign stays as it is
    let mut reader = UdpReader::create_with_idx(vec![0xC2, 0xA7, b'6', 0], 0);
    assert_eq!(reader.read_nt_str().unwrap(), "\u{A7}6");
    // the continuation bytes of a longer character are taken apart: no general repair
    let mut reader = UdpReader::create_with_idx(vec![0xE4, 0xB8, 0xAD, 0], 0);
    assert_eq!(
        reader.read_nt_str().unwrap(),
        String::from_utf8_lossy(&[0xE4, 0xC2, 0xB8, 0xC2, 0xAD])
    );
    // bytes that are no UTF-8 at all become the replacement character
    let mut reader = UdpReader::create_with_idx(vec![0xFF, b'x', 0], 0);
    assert_eq!(reader.read_nt_str().unwrap(), "\u{FFFD}x");
}

#[test]
fn nt_kv_reads_a_key_and_a_value() {
    let mut reader = UdpReader::create_with_idx(b"hostname\0A \xA7cServer\0map\0world\0".to_vec(), 0);
    assert_eq!(reader.read_nt_kv().unwrap(), ("hostname".to_string(), "A \u{A7}cServer".to_string()));
    assert_eq!(reader.current_idx(), 20);
    assert_eq!(reader.read_nt_kv().unwrap(), ("map".to_string(), "world".to_string()));
}

#[test]
fn nt_str_group_ends_at_the_double_zero() {
    let mut reader = UdpReader::create_with_idx(b"Alice\0Bob\0\0rest".to_vec(), 0);
    assert_eq!(reader.read_nt_str_group().unwrap(), vec!["Alice".to_string(), "Bob".to_string()]);
    assert_eq!(reader.current_idx(), 11);

    let mut reader = UdpReader::create_with_idx(b"\0\0".to_vec(), 0);
    assert_eq!(reader.read_nt_str_group().unwrap(), Vec::<String>::new());
    assert_eq!(reader.current_idx(), 2);

    let mut reader = UdpReader::create_with_idx(b"Alice\0".to_vec(), 0);
    assert_eq!(reader.read_nt_str_group().unwrap(), vec!["Alice".to_string()]);
    assert_eq!(reader.current_idx(), 7);

    let mut reader = UdpReader::create_with_idx(b"\0A\0\0".to_vec(), 0);
    assert_eq!(reader.read_nt_str_group().unwrap(), vec!["".to_string(), "A".to_string()]);

    let mut reader = UdpReader::create_with_idx(vec![], 3);
    assert_eq!(reader.read_nt_str_group().unwrap(), Vec::<String>::new());
    assert_eq!(reader.current_idx(), 5);
}
