use liters::ltx::lz4f::{compress_frame, decompress_frame, Cursor};

#[test]
fn roundtrip_compressible() {
    let data = vec![7u8; 4096];
    let mut frame = Vec::new();
    compress_frame(&data, &mut frame);
    assert!(frame.len() < data.len());

    let mut out = vec![0u8; 4096];
    let mut cur = Cursor::new(&frame);
    decompress_frame(&mut cur, &mut out).unwrap();
    assert_eq!(out, data);
    assert_eq!(cur.position() as usize, frame.len()); // consumed exactly the frame
}

#[test]
fn roundtrip_incompressible() {
    // Pseudo-random bytes don't compress; must take the raw-block path.
    let mut data = vec![0u8; 4096];
    let mut state = 0x12345678u32;
    for b in &mut data {
        state = state.wrapping_mul(1664525).wrapping_add(1013904223);
        *b = (state >> 24) as u8;
    }
    let mut frame = Vec::new();
    compress_frame(&data, &mut frame);

    let mut out = vec![0u8; 4096];
    decompress_frame(&mut Cursor::new(&frame), &mut out).unwrap();
    assert_eq!(out, data);
}

#[test]
fn roundtrip_max_page() {
    let data = vec![3u8; 65536]; // exactly one 64KB block
    let mut frame = Vec::new();
    compress_frame(&data, &mut frame);
    let mut out = vec![0u8; 65536];
    decompress_frame(&mut Cursor::new(&frame), &mut out).unwrap();
    assert_eq!(out, data);
}

#[test]
fn exact_boundary_with_trailing_data() {
    // Frame followed by other bytes: decoder must not consume past the frame.
    let data = vec![9u8; 512];
    let mut buf = Vec::new();
    compress_frame(&data, &mut buf);
    let frame_len = buf.len();
    buf.extend_from_slice(b"NEXTPAGEHDR");

    let mut out = vec![0u8; 512];
    let mut cur = Cursor::new(&buf);
    decompress_frame(&mut cur, &mut out).unwrap();
    assert_eq!(cur.position() as usize, frame_len);
}

#[test]
fn length_mismatch_rejected() {
    let data = vec![1u8; 512];
    let mut frame = Vec::new();
    compress_frame(&data, &mut frame);
    let mut out = vec![0u8; 1024]; // expecting more than the frame holds
    assert!(decompress_frame(&mut Cursor::new(&frame), &mut out).is_err());
    let mut out = vec![0u8; 256]; // expecting less
    assert!(decompress_frame(&mut Cursor::new(&frame), &mut out).is_err());
}

#[test]
fn corrupt_content_checksum_rejected() {
    let data = vec![5u8; 512];
    let mut frame = Vec::new();
    compress_frame(&data, &mut frame);
    let n = frame.len();
    frame[n - 1] ^= 0xFF;
    let mut out = vec![0u8; 512];
    assert!(decompress_frame(&mut Cursor::new(&frame), &mut out).is_err());
}
