use ggml_loader::container::{
    ContainerType, FILE_MAGIC_GGJT, FILE_MAGIC_GGLA, FILE_MAGIC_GGMF, FILE_MAGIC_GGML,
};
use ggml_loader::cursor::ByteCursor;
use ggml_loader::errors::LoadError;

fn round_trip(t: ContainerType) -> ContainerType {
    let mut out: Vec<u8> = Vec::new();
    t.write(&mut out);
    let mut c = ByteCursor::new(out);
    ContainerType::read(&mut c).expect("round trip must detect")
}

#[test]
fn round_trip_unversioned() {
    assert_eq!(round_trip(ContainerType::Ggml), ContainerType::Ggml);
}

#[test]
fn round_trip_versioned_variants() {
    for v in [0u32, 1, 2, 7, 0xdead_beef, u32::MAX] {
        assert_eq!(round_trip(ContainerType::Ggmf(v)), ContainerType::Ggmf(v));
        assert_eq!(round_trip(ContainerType::Ggjt(v)), ContainerType::Ggjt(v));
        assert_eq!(round_trip(ContainerType::Ggla(v)), ContainerType::Ggla(v));
    }
}

#[test]
fn magic_bytes_are_little_endian() {
    let mut out: Vec<u8> = Vec::new();
    ContainerType::Ggml.write(&mut out);
    assert_eq!(out, FILE_MAGIC_GGML.to_le_bytes().to_vec());
    let mut out2: Vec<u8> = Vec::new();
    ContainerType::Ggmf(3).write(&mut out2);
    let mut expect = FILE_MAGIC_GGMF.to_le_bytes().to_vec();
    expect.extend_from_slice(&3u32.to_le_bytes());
    assert_eq!(out2, expect);
}

#[test]
fn unknown_magic_is_rejected() {
    let mut c = ByteCursor::new(vec![0x12, 0x34, 0x56, 0x78]);
    match ContainerType::read(&mut c) {
        Err(LoadError::InvalidMagic { magic }) => assert_eq!(magic, 0x7856_3412),
        other => panic!("expected an invalid-magic error, got {:?}", other.is_ok()),
    }
}

#[test]
fn zero_magic_is_rejected() {
    let mut c = ByteCursor::new(vec![0, 0, 0, 0]);
    assert!(matches!(
        ContainerType::read(&mut c),
        Err(LoadError::InvalidMagic { magic: 0 })
    ));
}

#[test]
fn short_magic_is_short_read() {
    let mut c = ByteCursor::new(vec![0x6c, 0x6d]);
    assert!(matches!(
        ContainerType::read(&mut c),
        Err(LoadError::ReadExactFailed { bytes: 4 })
    ));
}

#[test]
fn short_version_is_short_read() {
    let mut c = ByteCursor::new(FILE_MAGIC_GGJT.to_le_bytes().to_vec());
    assert!(matches!(
        ContainerType::read(&mut c),
        Err(LoadError::ReadExactFailed { bytes: 4 })
    ));
}

#[test]
fn only_ggjt_supports_mmap() {
    assert!(!ContainerType::Ggml.support_mmap());
    assert!(!ContainerType::Ggmf(1).support_mmap());
    assert!(ContainerType::Ggjt(2).support_mmap());
    assert!(!ContainerType::Ggla(1).support_mmap());
}

#[test]
fn magic_constants_are_distinct() {
    let all = [FILE_MAGIC_GGML, FILE_MAGIC_GGMF, FILE_MAGIC_GGJT, FILE_MAGIC_GGLA];
    for i in 0..all.len() {
        for j in 0..all.len() {
            if i != j {
                assert_ne!(all[i], all[j]);
            }
        }
    }
}
