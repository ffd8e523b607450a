use ggml_loader::cursor::{read_bytes, read_i32, read_string, read_u32, write_u32, ByteCursor};
use ggml_loader::errors::LoadError;

#[test]
fn read_u32_is_little_endian() {
    let mut c = ByteCursor::new(vec![0x78, 0x56, 0x34, 0x12]);
    assert_eq!(read_u32(&mut c).unwrap(), 0x1234_5678);
    assert_eq!(c.pos, 4);
}

#[test]
fn read_i32_decodes_negative_values() {
    let mut c = ByteCursor::new(vec![0xff, 0xff, 0xff, 0xff, 0xfe, 0xff, 0xff, 0xff]);
    assert_eq!(read_i32(&mut c).unwrap(), -1);
    assert_eq!(read_i32(&mut c).unwrap(), -2);
}

#[test]
fn read_i32_decodes_positive_values() {
    let mut c = ByteCursor::new(vec![0x2a, 0x00, 0x00, 0x00]);
    assert_eq!(read_i32(&mut c).unwrap(), 42);
}

#[test]
fn read_bytes_returns_exactly_the_range() {
    let mut c = ByteCursor::new(vec![1, 2, 3, 4, 5]);
    c.seek(1);
    let b = read_bytes(&mut c, 3).unwrap();
    assert_eq!(b, vec![2, 3, 4]);
    assert_eq!(c.pos, 4);
}

#[test]
fn read_bytes_short_read_carries_the_request() {
    let mut c = ByteCursor::new(vec![1, 2]);
    assert!(matches!(
        read_bytes(&mut c, 3),
        Err(LoadError::ReadExactFailed { bytes: 3 })
    ));
    assert_eq!(c.pos, 0);
}

#[test]
fn read_string_decodes_utf8() {
    let mut c = ByteCursor::new(b"bias!".to_vec());
    let s = read_string(&mut c, 4).unwrap();
    assert_eq!(s, "bias");
}

#[test]
fn read_string_decodes_multibyte_utf8() {
    let bytes = "caf\u{e9}".as_bytes().to_vec();
    let n = bytes.len();
    let mut c = ByteCursor::new(bytes);
    let s = read_string(&mut c, n).unwrap();
    assert_eq!(s, "caf\u{e9}");
}

#[test]
fn read_string_rejects_invalid_utf8() {
    let mut c = ByteCursor::new(vec![0xff, 0xfe, 0x41]);
    assert!(matches!(read_string(&mut c, 3), Err(LoadError::InvalidUtf8)));
}

#[test]
fn read_string_short_read() {
    let mut c = ByteCursor::new(vec![0x41]);
    assert!(matches!(
        read_string(&mut c, 2),
        Err(LoadError::ReadExactFailed { bytes: 2 })
    ));
}

#[test]
fn write_u32_emits_little_endian() {
    let mut out: Vec<u8> = Vec::new();
    write_u32(&mut out, 0x1234_5678);
    assert_eq!(out, vec![0x78, 0x56, 0x34, 0x12]);
}

#[test]
fn skip_past_end_saturates_to_eof() {
    let mut c = ByteCursor::new(vec![1, 2, 3]);
    c.skip(10);
    assert!(c.is_eof());
}
