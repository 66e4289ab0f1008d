use kafka_broker::primitives::{parse_compact_string, parse_unsigned_varlong};
use kafka_broker::reader::Reader;

#[test]
fn test_decode_single_byte_varint() {
    let mut cursor = Reader::new(vec![10]);
    let value = parse_unsigned_varlong(&mut cursor).unwrap();
    assert_eq!(10, value);
}

#[test]
fn test_decode_multi_byte_variant() {
    let mut cursor = Reader::new(vec![0x96, 0x1]);
    let value = parse_unsigned_varlong(&mut cursor).unwrap();
    assert_eq!(150, value);

    let mut cursor = Reader::new(vec![0x80, 0x80, 0x01]);
    let value = parse_unsigned_varlong(&mut cursor).unwrap();
    assert_eq!(16384, value);
}

#[test]
fn test_decode_compact_string() {
    let string = "test";
    let mut buf: Vec<u8> = Vec::new();
    buf.push(string.len() as u8 + 1);
    buf.extend(string.as_bytes());
    let mut cursor = Reader::new(buf);
    assert_eq!("test", &parse_compact_string(&mut cursor).unwrap());
}
