use ggml_loader::container::ContainerType;
use ggml_loader::cursor::ByteCursor;
use ggml_loader::element::Type;
use ggml_loader::errors::LoadError;
use ggml_loader::loader::{
    load_weights_ggjt, load_weights_ggmf_or_unversioned, LoadProgress, PartFile,
};
use ggml_loader::registry::TensorRegistry;

fn push_u32(out: &mut Vec<u8>, v: u32) {
    out.extend_from_slice(&v.to_le_bytes());
}

/// One tensor record as the unversioned and Ggmf containers lay it out.
fn record(name: &str, ftype: u32, ne: &[u32], data: &[u8]) -> Vec<u8> {
    let mut out: Vec<u8> = Vec::new();
    push_u32(&mut out, ne.len() as u32);
    push_u32(&mut out, name.len() as u32);
    push_u32(&mut out, ftype);
    for d in ne {
        push_u32(&mut out, *d);
    }
    out.extend_from_slice(name.as_bytes());
    out.extend_from_slice(data);
    out
}

fn part(path: &str, data: Vec<u8>) -> PartFile {
    PartFile { path: path.to_string(), data }
}

#[test]
fn single_part_rank1_copies_all_bytes_at_offset_zero() {
    let mut reg = TensorRegistry::new();
    assert!(reg.register("bias".to_string(), 4, 1, Type::F32));
    let src: Vec<u8> = (1..=16).collect();
    let parts = vec![part("m.bin", record("bias", 0, &[4], &src))];
    let mut events: Vec<LoadProgress> = Vec::new();
    load_weights_ggmf_or_unversioned(&parts, 0, &mut reg, &mut events).unwrap();
    let idx = reg.find(&"bias".to_string()).unwrap();
    assert_eq!(reg.get(idx).data, src);
    assert_eq!(events.len(), 3);
    assert!(matches!(
        events[0],
        LoadProgress::PartLoading { current_part: 0, total_parts: 1, .. }
    ));
    assert!(matches!(
        events[1],
        LoadProgress::PartTensorLoaded { current_tensor: 1, tensor_count: 1, .. }
    ));
    assert!(matches!(
        events[2],
        LoadProgress::PartLoaded { byte_size: 16, tensor_count: 1, .. }
    ));
}

#[test]
fn two_part_row_split_fills_adjacent_row_runs() {
    // "output.weight" splits by rows. Destination ne = [4, 16]; each part
    // declares ne = [4, 8] and carries 8 rows of 16 bytes.
    let mut reg = TensorRegistry::new();
    assert!(reg.register("output.weight".to_string(), 4, 16, Type::F32));
    let part0_data: Vec<u8> = (0..128).map(|i| i as u8).collect();
    let part1_data: Vec<u8> = (0..128).map(|i| (128 + i) as u8).collect();
    let parts = vec![
        part("m.bin", record("output.weight", 0, &[4, 8], &part0_data)),
        part("m.bin.1", record("output.weight", 0, &[4, 8], &part1_data)),
    ];
    let mut events: Vec<LoadProgress> = Vec::new();
    load_weights_ggmf_or_unversioned(&parts, 0, &mut reg, &mut events).unwrap();
    let idx = reg.find(&"output.weight".to_string()).unwrap();
    let got = &reg.get(idx).data;
    // Part 0 fills destination rows [0, 8), part 1 rows [8, 16): no
    // overlap and no gap.
    assert_eq!(&got[..128], &part0_data[..]);
    assert_eq!(&got[128..], &part1_data[..]);
}

#[test]
fn two_part_column_split_fills_left_and_right_columns() {
    // "tok_embeddings.weight" splits by columns. Destination ne = [8, 4];
    // each part declares ne = [4, 4] and carries 4 slices of 16 bytes.
    let mut reg = TensorRegistry::new();
    assert!(reg.register("tok_embeddings.weight".to_string(), 8, 4, Type::F32));
    let part0_data: Vec<u8> = (0..64).map(|i| i as u8).collect();
    let part1_data: Vec<u8> = (0..64).map(|i| (64 + i) as u8).collect();
    let parts = vec![
        part("m.bin", record("tok_embeddings.weight", 0, &[4, 4], &part0_data)),
        part("m.bin.1", record("tok_embeddings.weight", 0, &[4, 4], &part1_data)),
    ];
    let mut events: Vec<LoadProgress> = Vec::new();
    load_weights_ggmf_or_unversioned(&parts, 0, &mut reg, &mut events).unwrap();
    let idx = reg.find(&"tok_embeddings.weight".to_string()).unwrap();
    let got = &reg.get(idx).data;
    // Row stride is (8 / 1) * 4 = 32 bytes for both parts; part 0 owns the
    // left 16 bytes of every row, part 1 the right 16.
    for row in 0..4 {
        assert_eq!(&got[row * 32..row * 32 + 16], &part0_data[row * 16..(row + 1) * 16]);
        assert_eq!(&got[row * 32 + 16..(row + 1) * 32], &part1_data[row * 16..(row + 1) * 16]);
    }
}

#[test]
fn unknown_tensor_aborts_before_any_copy() {
    let mut reg = TensorRegistry::new();
    assert!(reg.register("bias".to_string(), 4, 1, Type::F32));
    let src: Vec<u8> = vec![9; 16];
    let parts = vec![part("m.bin", record("missing", 0, &[4], &src))];
    let mut events: Vec<LoadProgress> = Vec::new();
    let err = load_weights_ggmf_or_unversioned(&parts, 0, &mut reg, &mut events).unwrap_err();
    match err {
        LoadError::UnknownTensor { tensor_name, path } => {
            assert_eq!(tensor_name, "missing");
            assert_eq!(path, "m.bin");
        },
        other => panic!("expected an unknown-tensor error, got {:?}", other),
    }
    // The registered tensor's bytes were never touched.
    let idx = reg.find(&"bias".to_string()).unwrap();
    assert_eq!(reg.get(idx).data, vec![0u8; 16]);
}

#[test]
fn ftype_out_of_range_is_invalid_ftype() {
    let mut reg = TensorRegistry::new();
    assert!(reg.register("bias".to_string(), 4, 1, Type::F32));
    let parts = vec![part("m.bin", record("bias", 4, &[4], &[0; 16]))];
    let mut events: Vec<LoadProgress> = Vec::new();
    let err = load_weights_ggmf_or_unversioned(&parts, 0, &mut reg, &mut events).unwrap_err();
    assert!(matches!(err, LoadError::InvalidFtype { ftype: 4, .. }));
}

#[test]
fn single_part_count_always_copies_rank2() {
    // With a part count of 1, the only part copies even for rank-2
    // tensors: behavior is continuous at a part count of 1.
    let mut reg = TensorRegistry::new();
    assert!(reg.register("output.weight".to_string(), 4, 4, Type::F32));
    let src: Vec<u8> = (0..64).map(|i| (i * 3) as u8).collect();
    let parts = vec![part("m.bin", record("output.weight", 0, &[4, 4], &src))];
    let mut events: Vec<LoadProgress> = Vec::new();
    load_weights_ggmf_or_unversioned(&parts, 0, &mut reg, &mut events).unwrap();
    let idx = reg.find(&"output.weight".to_string()).unwrap();
    assert_eq!(reg.get(idx).data, src);
}

#[test]
fn mismatched_extents_are_wrong_size() {
    let mut reg = TensorRegistry::new();
    assert!(reg.register("bias".to_string(), 4, 1, Type::F32));
    let parts = vec![part("m.bin", record("bias", 0, &[8], &[0; 32]))];
    let mut events: Vec<LoadProgress> = Vec::new();
    let err = load_weights_ggmf_or_unversioned(&parts, 0, &mut reg, &mut events).unwrap_err();
    assert!(matches!(err, LoadError::TensorWrongSize { .. }));
}

#[test]
fn quantized_extent_must_divide_by_block_layout() {
    let mut reg = TensorRegistry::new();
    // 32 is whole in storage units but not divisible by 64.
    assert!(reg.register("w".to_string(), 32, 1, Type::Q4_0));
    let parts = vec![part("m.bin", record("w", 2, &[32], &[0; 20]))];
    let mut events: Vec<LoadProgress> = Vec::new();
    let err = load_weights_ggmf_or_unversioned(&parts, 0, &mut reg, &mut events).unwrap_err();
    assert!(matches!(err, LoadError::TensorWrongSize { .. }));
}

#[test]
fn quantized_tensor_loads_with_block_sizes() {
    // ne0 = 64 elements of q4_0: 2 blocks of 32 elements, 20 bytes each.
    let mut reg = TensorRegistry::new();
    assert!(reg.register("w".to_string(), 64, 1, Type::Q4_0));
    let src: Vec<u8> = (0..40).map(|i| i as u8).collect();
    let parts = vec![part("m.bin", record("w", 2, &[64], &src))];
    let mut events: Vec<LoadProgress> = Vec::new();
    load_weights_ggmf_or_unversioned(&parts, 0, &mut reg, &mut events).unwrap();
    let idx = reg.find(&"w".to_string()).unwrap();
    assert_eq!(reg.get(idx).data, src);
}

#[test]
fn truncated_record_is_short_read() {
    let mut reg = TensorRegistry::new();
    assert!(reg.register("bias".to_string(), 4, 1, Type::F32));
    let mut bytes = record("bias", 0, &[4], &[0; 16]);
    bytes.truncate(bytes.len() - 4);
    let parts = vec![part("m.bin", bytes)];
    let mut events: Vec<LoadProgress> = Vec::new();
    let err = load_weights_ggmf_or_unversioned(&parts, 0, &mut reg, &mut events).unwrap_err();
    assert!(matches!(err, LoadError::ReadExactFailed { bytes: 16 }));
}

#[test]
fn file_offset_skips_shared_metadata() {
    let mut reg = TensorRegistry::new();
    assert!(reg.register("bias".to_string(), 4, 1, Type::F32));
    let src: Vec<u8> = (1..=16).collect();
    let mut bytes = vec![0xaa; 7];
    bytes.extend_from_slice(&record("bias", 0, &[4], &src));
    let parts = vec![part("m.bin", bytes)];
    let mut events: Vec<LoadProgress> = Vec::new();
    load_weights_ggmf_or_unversioned(&parts, 7, &mut reg, &mut events).unwrap();
    let idx = reg.find(&"bias".to_string()).unwrap();
    assert_eq!(reg.get(idx).data, src);
}

#[test]
fn empty_part_list_is_a_successful_no_op() {
    let mut reg = TensorRegistry::new();
    assert!(reg.register("bias".to_string(), 4, 1, Type::F32));
    let parts: Vec<PartFile> = Vec::new();
    let mut events: Vec<LoadProgress> = Vec::new();
    load_weights_ggmf_or_unversioned(&parts, 0, &mut reg, &mut events).unwrap();
    assert!(events.is_empty());
    let idx = reg.find(&"bias".to_string()).unwrap();
    assert_eq!(reg.get(idx).data, vec![0u8; 16]);
}

#[test]
fn ggjt_aligns_tensor_data_to_the_boundary() {
    let mut reg = TensorRegistry::new();
    assert!(reg.register("bias".to_string(), 4, 1, Type::F32));
    let src: Vec<u8> = (1..=16).collect();
    // Header: rank 1, 4-byte name, ftype 0, ne0 = 4, then "bias" — 20
    // bytes in all — then padding up to 32, then the data.
    let mut bytes = record("bias", 0, &[4], &[]);
    assert_eq!(bytes.len(), 20);
    while bytes.len() % 32 != 0 {
        bytes.push(0xcc);
    }
    bytes.extend_from_slice(&src);
    let f = part("m.ggjt", bytes);
    let mut events: Vec<LoadProgress> = Vec::new();
    load_weights_ggjt(&f, 0, &mut reg, &mut events).unwrap();
    let idx = reg.find(&"bias".to_string()).unwrap();
    assert_eq!(reg.get(idx).data, src);
    assert_eq!(events.len(), 3);
}

#[test]
fn ggjt_missing_padding_is_short_read() {
    let mut reg = TensorRegistry::new();
    assert!(reg.register("bias".to_string(), 4, 1, Type::F32));
    // The header ends at byte 20; without padding the data would start
    // unaligned, so the loader seeks to 32 and runs short.
    let bytes = record("bias", 0, &[4], &[1, 2, 3, 4]);
    let f = part("m.ggjt", bytes);
    let mut events: Vec<LoadProgress> = Vec::new();
    let err = load_weights_ggjt(&f, 0, &mut reg, &mut events).unwrap_err();
    assert!(matches!(err, LoadError::ReadExactFailed { bytes: 16 }));
}

#[test]
fn registry_rejects_unsupported_shapes() {
    let mut reg = TensorRegistry::new();
    // 33 elements are not whole in 32-element blocks.
    assert!(!reg.register("w".to_string(), 33, 1, Type::Q4_0));
    assert!(!reg.register("w".to_string(), 4, 1, Type::Q8_0));
    assert_eq!(reg.len(), 0);
}

#[test]
fn ggmf_file_header_then_records() {
    // A versioned Ggmf file: magic, version, then records from offset 8.
    let mut bytes: Vec<u8> = Vec::new();
    ContainerType::Ggmf(1).write(&mut bytes);
    let src: Vec<u8> = (1..=16).collect();
    bytes.extend_from_slice(&record("bias", 0, &[4], &src));

    let mut c = ByteCursor::new(bytes.clone());
    let t = ContainerType::read(&mut c).unwrap();
    assert_eq!(t, ContainerType::Ggmf(1));
    assert_eq!(c.pos, 8);

    let mut reg = TensorRegistry::new();
    assert!(reg.register("bias".to_string(), 4, 1, Type::F32));
    let parts = vec![part("m.bin", bytes)];
    let mut events: Vec<LoadProgress> = Vec::new();
    load_weights_ggmf_or_unversioned(&parts, 8, &mut reg, &mut events).unwrap();
    let idx = reg.find(&"bias".to_string()).unwrap();
    assert_eq!(reg.get(idx).data, src);
}

#[test]
fn two_parts_report_six_events_in_order() {
    let mut reg = TensorRegistry::new();
    assert!(reg.register("output.weight".to_string(), 4, 16, Type::F32));
    let parts = vec![
        part("m.bin", record("output.weight", 0, &[4, 8], &[1; 128])),
        part("m.bin.1", record("output.weight", 0, &[4, 8], &[2; 128])),
    ];
    let mut events: Vec<LoadProgress> = Vec::new();
    load_weights_ggmf_or_unversioned(&parts, 0, &mut reg, &mut events).unwrap();
    assert_eq!(events.len(), 6);
    assert!(matches!(events[0], LoadProgress::PartLoading { current_part: 0, total_parts: 2, .. }));
    assert!(matches!(events[1], LoadProgress::PartTensorLoaded { current_tensor: 1, .. }));
    assert!(matches!(events[2], LoadProgress::PartLoaded { byte_size: 128, tensor_count: 1, .. }));
    assert!(matches!(events[3], LoadProgress::PartLoading { current_part: 1, total_parts: 2, .. }));
    assert!(matches!(events[4], LoadProgress::PartTensorLoaded { current_tensor: 1, .. }));
    assert!(matches!(events[5], LoadProgress::PartLoaded { byte_size: 128, tensor_count: 1, .. }));
}

#[test]
fn failing_part_reports_no_completion_event() {
    let mut reg = TensorRegistry::new();
    assert!(reg.register("bias".to_string(), 4, 1, Type::F32));
    let parts = vec![part("m.bin", record("missing", 0, &[4], &[0; 16]))];
    let mut events: Vec<LoadProgress> = Vec::new();
    assert!(load_weights_ggmf_or_unversioned(&parts, 0, &mut reg, &mut events).is_err());
    assert_eq!(events.len(), 1);
    assert!(matches!(events[0], LoadProgress::PartLoading { .. }));
}

#[test]
fn second_part_of_unsharded_tensor_only_seeks() {
    // Rank-1 tensors are replicated across parts: part 0 copies, part 1
    // seeks past the same bytes without overwriting.
    let mut reg = TensorRegistry::new();
    assert!(reg.register("bias".to_string(), 4, 1, Type::F32));
    // A rank-2 companion so the 2-part set has something sharded too.
    assert!(reg.register("output.weight".to_string(), 4, 16, Type::F32));
    let bias0: Vec<u8> = (1..=16).collect();
    let bias1: Vec<u8> = vec![0xee; 16];
    let mut p0 = record("bias", 0, &[4], &bias0);
    p0.extend_from_slice(&record("output.weight", 0, &[4, 8], &[1; 128]));
    let mut p1 = record("bias", 0, &[4], &bias1);
    p1.extend_from_slice(&record("output.weight", 0, &[4, 8], &[2; 128]));
    let parts = vec![part("m.bin", p0), part("m.bin.1", p1)];
    let mut events: Vec<LoadProgress> = Vec::new();
    load_weights_ggmf_or_unversioned(&parts, 0, &mut reg, &mut events).unwrap();
    let idx = reg.find(&"bias".to_string()).unwrap();
    // Part 1's replicated copy was skipped, not written.
    assert_eq!(reg.get(idx).data, bias0);
}

#[test]
fn negative_rank_is_an_integer_conversion_error() {
    let mut reg = TensorRegistry::new();
    assert!(reg.register("bias".to_string(), 4, 1, Type::F32));
    // A rank field with the sign bit set does not fit the target range.
    let mut bytes: Vec<u8> = Vec::new();
    push_u32(&mut bytes, 0xffff_ffff);
    push_u32(&mut bytes, 4);
    push_u32(&mut bytes, 0);
    let parts = vec![part("m.bin", bytes)];
    let mut events: Vec<LoadProgress> = Vec::new();
    let err = load_weights_ggmf_or_unversioned(&parts, 0, &mut reg, &mut events).unwrap_err();
    assert!(matches!(err, LoadError::InvalidIntegerConversion));
}
