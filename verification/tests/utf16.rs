use msp::share::is_valid_port;
use msp::utf16::{bufs_to_utf16_str, decode_utf16_lossy, encode_utf16};
use msp::ErrKind;

#[test]
fn utf16_text_keeps_its_code_units() {
    let text = "A \u{A7}1 \u{4E2D}\u{6587} \u{1F600}!";
    let units: Vec<u16> = text.encode_utf16().collect();
    let mut bytes = Vec::new();
    for u in &units {
        bytes.extend_from_slice(&u.to_be_bytes());
    }
    let s = bufs_to_utf16_str(&bytes).unwrap();
    assert_eq!(s, text);
    assert_eq!(s.encode_utf16().collect::<Vec<u16>>(), units);
    let chars: Vec<char> = text.chars().collect();
    assert_eq!(encode_utf16(&chars), units);
    assert_eq!(decode_utf16_lossy(&units), chars);
}

#[test]
fn utf16_odd_length_is_a_data_error() {
    assert_eq!(bufs_to_utf16_str(&[0x00]).unwrap_err().kind(), ErrKind::Data);
    assert_eq!(bufs_to_utf16_str(&[0x00, 0x41, 0x00]).unwrap_err().kind(), ErrKind::Data);
    assert_eq!(bufs_to_utf16_str(&[]).unwrap(), "");
}

#[test]
fn utf16_unpaired_surrogates_are_replaced() {
    for units in [vec![0xD800u16], vec![0xDC00], vec![0xD800, 0x0041], vec![0xDC00, 0xD800],
        vec![0xD800, 0xD800, 0xDC00], vec![0x0041, 0xDBFF, 0xDFFF, 0xDFFF]]
    {
        let mut bytes = Vec::new();
        for u in &units {
            bytes.extend_from_slice(&u.to_be_bytes());
        }
        assert_eq!(bufs_to_utf16_str(&bytes).unwrap(), String::from_utf16_lossy(&units));
    }
    assert_eq!(bufs_to_utf16_str(&[0xD8, 0x00]).unwrap(), "\u{FFFD}");
}

#[test]
fn ports_from_1024_on_are_valid() {
    assert!(!is_valid_port(0));
    assert!(!is_valid_port(1023));
    assert!(is_valid_port(1024));
    assert!(is_valid_port(65535));
}

#[test]
fn every_character_encodes_and_decodes_as_in_std() {
    let mut buf = [0u16; 2];
    for code in 0..=0x10FFFFu32 {
        if let Some(c) = char::from_u32(code) {
            let expect = c.encode_utf16(&mut buf);
            let units = encode_utf16(&[c]);
            assert_eq!(&units[..], &expect[..]);
            assert_eq!(decode_utf16_lossy(&units), vec![c]);
        }
    }
}

#[test]
fn every_pair_of_surrogate_units_decodes_as_in_std() {
    for first in (0xD7FEu16..=0xE001).chain([0x0041, 0xFFFF]) {
        for second in (0xD7FEu16..=0xE001).step_by(7).chain([0xDBFF, 0xDC00, 0xDFFF, 0x0041]) {
            let units = [first, second, first];
            let got: String = decode_utf16_lossy(&units).into_iter().collect();
            assert_eq!(got, String::from_utf16_lossy(&units));
        }
    }
}
