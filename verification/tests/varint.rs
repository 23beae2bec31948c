use msp::varint::decode_varint_from_socket;
use msp::{decode_varint, encode_varint, ErrKind};

#[test]
fn test_encode_varint() {
    assert_eq!(encode_varint(0), vec![0x00]);
    assert_eq!(encode_varint(1), vec![0x01]);
    assert_eq!(encode_varint(2), vec![0x02]);
    assert_eq!(encode_varint(127), vec![0x7F]);
    assert_eq!(encode_varint(128), vec![0x80, 0x01]);
    assert_eq!(encode_varint(255), vec![0xFF, 0x01]);
    assert_eq!(encode_varint(25565), vec![0xDD, 0xC7, 0x01]);
    assert_eq!(encode_varint(2097151), vec![0xFF, 0xFF, 0x7F]);
    assert_eq!(
        encode_varint(2147483647),
        vec![0xFF, 0xFF, 0xFF, 0xFF, 0x07]
    );
    assert_eq!(encode_varint(-1), vec![0xFF, 0xFF, 0xFF, 0xFF, 0x0F]);
    assert_eq!(
        encode_varint(-2147483648),
        vec![0x80, 0x80, 0x80, 0x80, 0x08]
    );
}

#[test]
fn test_decode_varint() {
    let mut decode_result = decode_varint(&vec![0x00]);
    assert!(decode_result.is_ok());
    assert_eq!(decode_result.unwrap(), 0);

    decode_result = decode_varint(&vec![0x01]);
    assert!(decode_result.is_ok());
    assert_eq!(decode_result.unwrap(), 1);

    decode_result = decode_varint(&vec![0x02]);
    assert!(decode_result.is_ok());
    assert_eq!(decode_result.unwrap(), 2);

    decode_result = decode_varint(&vec![0x7F]);
    assert!(decode_result.is_ok());
    assert_eq!(decode_result.unwrap(), 127);

    decode_result = decode_varint(&vec![0x80, 0x01]);
    assert!(decode_result.is_ok());
    assert_eq!(decode_result.unwrap(), 128);

    decode_result = decode_varint(&vec![0xFF, 0x01]);
    assert!(decode_result.is_ok());
    assert_eq!(decode_result.unwrap(), 255);

    decode_result = decode_varint(&vec![0xDD, 0xC7, 0x01]);
    assert!(decode_result.is_ok());
    assert_eq!(decode_result.unwrap(), 25565);

    decode_result = decode_varint(&vec![0xFF, 0xFF, 0x7F]);
    assert!(decode_result.is_ok());
    assert_eq!(decode_result.unwrap(), 2097151);

    decode_result = decode_varint(&vec![0xFF, 0xFF, 0xFF, 0xFF, 0x07]);
    assert!(decode_result.is_ok());
    assert_eq!(decode_result.unwrap(), 2147483647);

    decode_result = decode_varint(&vec![0xFF, 0xFF, 0xFF, 0xFF, 0x0F]);
    assert!(decode_result.is_ok());
    assert_eq!(decode_result.unwrap(), -1);

    decode_result = decode_varint(&vec![0x80, 0x80, 0x80, 0x80, 0x08]);
    assert!(decode_result.is_ok());
    assert_eq!(decode_result.unwrap(), -2147483648);
}

#[test]
fn decode_varint_rejects_bad_shapes() {
    assert_eq!(decode_varint(&vec![]).unwrap_err().kind(), ErrKind::Data);
    assert_eq!(
        decode_varint(&vec![0x80, 0x80, 0x80, 0x80, 0x80, 0x01]).unwrap_err().kind(),
        ErrKind::Data
    );
    assert_eq!(decode_varint(&vec![0x80]).unwrap_err().kind(), ErrKind::Data);
    assert_eq!(decode_varint(&vec![0x01, 0xFF]).unwrap_err().kind(), ErrKind::Data);
}

#[test]
fn decode_varint_drops_bits_above_the_32nd() {
    assert_eq!(decode_varint(&vec![0xFF, 0xFF, 0xFF, 0xFF, 0x7F]).unwrap(), -1);
    assert_eq!(decode_varint(&vec![0x01, 0x02]).unwrap(), 257);
}

#[test]
fn varint_round_trip_on_many_values() {
    let mut values: Vec<i32> = vec![i32::MIN, i32::MIN + 1, -129, -128, -1, 0, 1, 127, 128, 16383,
        16384, 2097151, 2097152, 268435455, 268435456, i32::MAX - 1, i32::MAX];
    let mut x: i32 = 1;
    for _ in 0..4000 {
        x = x.wrapping_mul(1103515245).wrapping_add(12345);
        values.push(x);
    }
    for n in values {
        let bytes = encode_varint(n);
        assert!(!bytes.is_empty() && bytes.len() <= 5);
        assert_eq!(bytes.len() == 1, (0..=127).contains(&n));
        if n < 0 {
            assert_eq!(bytes.len(), 5);
        }
        assert_eq!(decode_varint(&bytes).unwrap(), n);
    }
}

#[test]
fn stream_decoder_reads_one_varint() {
    let stream = [0x07, 0xDD, 0xC7, 0x01, 0x55];
    assert_eq!(decode_varint_from_socket(&stream, 0).unwrap(), Some((1, 7)));
    assert_eq!(decode_varint_from_socket(&stream, 1).unwrap(), Some((3, 25565)));
    assert_eq!(decode_varint_from_socket(&stream, 4).unwrap(), Some((1, 0x55)));
    assert_eq!(decode_varint_from_socket(&stream, 5).unwrap(), None);
    assert_eq!(decode_varint_from_socket(&stream, 9).unwrap(), None);
    assert_eq!(decode_varint_from_socket(&[0x80, 0x80], 0).unwrap(), None);
    assert_eq!(
        decode_varint_from_socket(&[0x80, 0x80, 0x80, 0x80, 0x80, 0x00], 0).unwrap_err().kind(),
        ErrKind::Data
    );
}
