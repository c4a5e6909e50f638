use chimera_compress::header::{
    assemble, classify, read_le_u32, rewrite_header, split_container, toggle_identifier,
    Classification, FormatError, HEADER_LEN,
};
use chimera_compress::toggle::{toggle_compression, ToggleError, ToggleOutcome};
use chimera_compress::transform::{
    compress_append, decompress_append, decompressed_capacity, transform, TransformError,
    TransformOutcome,
};

fn header_with(id: u32) -> Vec<u8> {
    let mut h: Vec<u8> = (0..HEADER_LEN).map(|i| (i % 251) as u8).collect();
    h[4..8].copy_from_slice(&id.to_le_bytes());
    h
}

fn file_with(id: u32, payload: &[u8]) -> Vec<u8> {
    let mut f = header_with(id);
    f.extend_from_slice(payload);
    f
}

fn sample_payload() -> Vec<u8> {
    let mut p = Vec::new();
    for i in 0..5000u32 {
        p.extend_from_slice(b"scenario ");
        p.push((i % 17) as u8);
    }
    p
}

fn zstd_frame(p: &[u8]) -> Vec<u8> {
    let mut dst = vec![0u8; zstd_safe::compress_bound(p.len())];
    let n = zstd_safe::compress(&mut dst[..], p, 3).unwrap();
    dst.truncate(n);
    dst
}

fn produced(r: Result<ToggleOutcome, ToggleError>) -> Vec<u8> {
    match r {
        Ok(ToggleOutcome::Produced(v)) => v,
        other => panic!("expected a produced file, got {:?}", other),
    }
}

fn id_of(f: &[u8]) -> u32 {
    u32::from_le_bytes(f[4..8].try_into().unwrap())
}

#[test]
fn too_small_inputs_are_refused() {
    for len in [0usize, 1, 8, 2047] {
        let raw = vec![0u8; len];
        assert_eq!(classify(&raw), Err(FormatError::TooSmall));
        assert!(matches!(
            toggle_compression(&raw, true),
            Err(ToggleError::Format(FormatError::TooSmall))
        ));
    }
}

#[test]
fn invalid_marker_is_refused_whatever_is_requested() {
    let raw = file_with(0x1234_0261, b"payload");
    assert_eq!(classify(&raw), Err(FormatError::InvalidMarker(0x1234_0261)));
    for compress in [true, false] {
        assert!(matches!(
            toggle_compression(&raw, compress),
            Err(ToggleError::Format(FormatError::InvalidMarker(0x1234_0261)))
        ));
    }
}

#[test]
fn unsupported_engine_tag_is_refused() {
    let raw = file_with(0x0000_0005, b"");
    assert_eq!(classify(&raw), Err(FormatError::UnsupportedEngineTag(0x0000_0005)));
    let packed = file_with(0x861A_0001, b"");
    assert_eq!(classify(&packed), Err(FormatError::UnsupportedEngineTag(0x861A_0001)));
    assert!(matches!(
        toggle_compression(&packed, true),
        Err(ToggleError::Format(FormatError::UnsupportedEngineTag(0x861A_0001)))
    ));
}

#[test]
fn classify_compressed_and_raw() {
    assert_eq!(
        classify(&file_with(0x861A_0261, b"x")),
        Ok(Classification { identifier: 0x861A_0261, is_compressed: true, toggled_identifier: 0x0261 })
    );
    assert_eq!(
        classify(&file_with(0x0000_0007, b"")),
        Ok(Classification { identifier: 7, is_compressed: false, toggled_identifier: 0x861A_0007 })
    );
}

#[test]
fn identifier_toggling() {
    assert_eq!(toggle_identifier(0x861A_0261), 0x0000_0261);
    assert_eq!(toggle_identifier(0x0000_0261), 0x861A_0261);
    assert_eq!(toggle_identifier(0x0000_0007), 0x861A_0007);
    assert_eq!(toggle_identifier(0x861A_0007), 0x0000_0007);
}

#[test]
fn little_endian_read() {
    assert_eq!(read_le_u32(&[9, 0x61, 0x02, 0x1A, 0x86, 9], 1), 0x861A_0261);
    assert_eq!(read_le_u32(&[1, 0, 0, 0], 0), 1);
}

#[test]
fn assembly_rewrites_only_the_identifier() {
    let h = header_with(0x0000_0261);
    let out = assemble(&h, 0xAABB_CCDD, b"tail");
    assert_eq!(out.len(), HEADER_LEN + 4);
    assert_eq!(&out[4..8], &[0xDD, 0xCC, 0xBB, 0xAA]);
    assert_eq!(&out[..4], &h[..4]);
    assert_eq!(&out[8..HEADER_LEN], &h[8..]);
    assert_eq!(&out[HEADER_LEN..], b"tail");
    assert_eq!(rewrite_header(&h, 0xAABB_CCDD), out[..HEADER_LEN].to_vec());
}

#[test]
fn split_at_header() {
    let raw = file_with(7, b"abc");
    let (h, p) = split_container(&raw);
    assert_eq!(h.len(), HEADER_LEN);
    assert_eq!(p, b"abc");
}

#[test]
fn decompress_sets_raw_identifier_and_declared_length() {
    let payload = sample_payload();
    let frame = zstd_frame(&payload);
    let raw = file_with(0x861A_0261, &frame);
    let out = produced(toggle_compression(&raw, false));
    assert_eq!(id_of(&out), 0x0000_0261);
    let declared = zstd_safe::get_frame_content_size(&frame).unwrap().unwrap();
    assert_eq!((out.len() - HEADER_LEN) as u64, declared);
    assert_eq!(&out[HEADER_LEN..], &payload[..]);
    assert_eq!(&out[8..HEADER_LEN], &raw[8..HEADER_LEN]);
}

#[test]
fn compress_sets_marker_and_stays_within_bound() {
    let payload = sample_payload();
    let raw = file_with(0x0000_0007, &payload);
    let out = produced(toggle_compression(&raw, true));
    assert_eq!(id_of(&out), 0x861A_0007);
    let frame = &out[HEADER_LEN..];
    assert!(frame.len() <= zstd_safe::compress_bound(payload.len()));
    assert!(frame.len() < payload.len());
    assert_ne!(frame, &payload[..]);
    assert_eq!(&out[..4], &raw[..4]);
    assert_eq!(&out[8..HEADER_LEN], &raw[8..HEADER_LEN]);
}

#[test]
fn compress_then_decompress_restores_the_file() {
    let raw = file_with(0x0000_0261, &sample_payload());
    let packed = produced(toggle_compression(&raw, true));
    assert_eq!(id_of(&packed) >> 16, 0x861A);
    assert_eq!(id_of(&packed) & 0xFFFF, 0x0261);
    let unpacked = produced(toggle_compression(&packed, false));
    assert_eq!(unpacked, raw);
}

#[test]
fn already_in_requested_state_is_skipped() {
    let packed = file_with(0x861A_0261, &zstd_frame(b"abc"));
    assert!(matches!(
        toggle_compression(&packed, true),
        Ok(ToggleOutcome::Skipped { compressed: true })
    ));
    let raw = file_with(0x0000_0007, b"plain");
    assert!(matches!(
        toggle_compression(&raw, false),
        Ok(ToggleOutcome::Skipped { compressed: false })
    ));
    let again = produced(toggle_compression(&raw, true));
    assert!(matches!(
        toggle_compression(&again, true),
        Ok(ToggleOutcome::Skipped { compressed: true })
    ));
}

#[test]
fn empty_payload_compresses_to_a_minimal_frame() {
    let raw = header_with(0x0000_0007);
    assert_eq!(raw.len(), HEADER_LEN);
    let first = produced(toggle_compression(&raw, true));
    let second = produced(toggle_compression(&raw, true));
    assert_eq!(first, second);
    assert!(first.len() > HEADER_LEN);
    assert_eq!(&first[HEADER_LEN..], &zstd_frame_level22(b"")[..]);
    assert_eq!(zstd_safe::get_frame_content_size(&first[HEADER_LEN..]).unwrap(), Some(0));
    let back = produced(toggle_compression(&first, false));
    assert_eq!(back, raw);
}

fn zstd_frame_level22(p: &[u8]) -> Vec<u8> {
    let mut dst = vec![0u8; zstd_safe::compress_bound(p.len())];
    let n = zstd_safe::compress(&mut dst[..], p, 22).unwrap();
    dst.truncate(n);
    dst
}

#[test]
fn frame_without_header_is_corrupt() {
    let raw = file_with(0x861A_0261, b"not a zstd frame at all");
    assert!(matches!(
        toggle_compression(&raw, false),
        Err(ToggleError::Transform(TransformError::CorruptFrame))
    ));
    let empty = header_with(0x861A_0007);
    assert!(matches!(
        toggle_compression(&empty, false),
        Err(ToggleError::Transform(TransformError::CorruptFrame))
    ));
}

#[test]
fn frame_without_declared_size_is_refused() {
    // Magic number, descriptor without content size, window descriptor.
    let frame = [0x28, 0xB5, 0x2F, 0xFD, 0x00, 0x00, 0x01, 0x00, 0x00];
    let raw = file_with(0x861A_0261, &frame);
    assert!(matches!(
        toggle_compression(&raw, false),
        Err(ToggleError::Transform(TransformError::UnknownContentSize))
    ));
}

fn frame_declaring(size: u64) -> Vec<u8> {
    // Magic number, descriptor with an 8-byte content size, window descriptor.
    let mut f = vec![0x28, 0xB5, 0x2F, 0xFD, 0xC0, 0x00];
    f.extend_from_slice(&size.to_le_bytes());
    f.extend_from_slice(&[0x01, 0x00, 0x00]);
    f
}

#[test]
fn declared_size_beyond_addressable_is_too_large() {
    let size = isize::MAX as u64 + 1;
    let raw = file_with(0x861A_0261, &frame_declaring(size));
    assert!(matches!(
        toggle_compression(&raw, false),
        Err(ToggleError::Transform(TransformError::TooLarge(s))) if s == size
    ));
}

#[test]
fn unreservable_size_is_out_of_memory() {
    let size = isize::MAX as u64 - 16;
    let raw = file_with(0x861A_0261, &frame_declaring(size));
    assert!(matches!(
        toggle_compression(&raw, false),
        Err(ToggleError::Transform(TransformError::OutOfMemory(s))) if s == size
    ));
}

#[test]
fn truncated_frame_is_a_codec_error() {
    let mut frame = zstd_frame(&sample_payload());
    frame.pop();
    let mut out = vec![1u8, 2, 3];
    let r = decompress_append(&mut out, &frame);
    assert!(matches!(r, Err(TransformError::CodecError(_))));
    assert_eq!(out, vec![1u8, 2, 3]);
}

#[test]
fn capacity_from_declared_size() {
    assert_eq!(decompressed_capacity(None), Err(TransformError::UnknownContentSize));
    assert_eq!(decompressed_capacity(Some(10)), Ok(10));
    assert_eq!(
        decompressed_capacity(Some(isize::MAX as u64 + 1)),
        Err(TransformError::TooLarge(isize::MAX as u64 + 1))
    );
    assert_eq!(decompressed_capacity(Some(isize::MAX as u64)), Ok(isize::MAX as usize));
}

#[test]
fn appends_keep_what_precedes() {
    let payload = sample_payload();
    let mut out = vec![7u8, 8];
    compress_append(&mut out, &payload).unwrap();
    assert_eq!(&out[..2], &[7, 8]);
    let mut back = vec![9u8];
    decompress_append(&mut back, &out[2..]).unwrap();
    assert_eq!(&back[..1], &[9]);
    assert_eq!(&back[1..], &payload[..]);
}

#[test]
fn transform_skips_or_produces() {
    assert!(matches!(transform(b"abc", true, true), Ok(TransformOutcome::Skipped)));
    assert!(matches!(transform(b"abc", false, false), Ok(TransformOutcome::Skipped)));
    let packed = match transform(b"abcabcabc", false, true) {
        Ok(TransformOutcome::Produced(v)) => v,
        other => panic!("{:?}", other),
    };
    assert_eq!(packed, zstd_frame_level22(b"abcabcabc"));
    match transform(&packed, true, false) {
        Ok(TransformOutcome::Produced(v)) => assert_eq!(v, b"abcabcabc".to_vec()),
        other => panic!("{:?}", other),
    }
}

#[test]
fn compress_bound_follows_the_zstd_formula() {
    assert_eq!(zstd_safe::compress_bound(0), 64);
    assert_eq!(zstd_safe::compress_bound(1000), 1000 + 3 + 63);
    assert_eq!(zstd_safe::compress_bound(200_000), 200_000 + 781);
    let raw = file_with(0x0000_0261, &sample_payload());
    let out = produced(toggle_compression(&raw, true));
    assert_eq!(&out[HEADER_LEN..], &zstd_frame_level22(&sample_payload())[..]);
}
