use webp_demux::{DecodedFrame, DecodingError, WebPDecoder, WebPRiffChunk};

fn chunk(tag: &[u8; 4], payload: &[u8]) -> Vec<u8> {
    let mut v = Vec::new();
    v.extend_from_slice(tag);
    v.extend_from_slice(&(payload.len() as u32).to_le_bytes());
    v.extend_from_slice(payload);
    if payload.len() % 2 == 1 {
        v.push(0);
    }
    v
}

fn webp_file(body: &[u8]) -> Vec<u8> {
    let mut v = Vec::new();
    v.extend_from_slice(b"RIFF");
    v.extend_from_slice(&((body.len() as u32) + 4).to_le_bytes());
    v.extend_from_slice(b"WEBP");
    v.extend_from_slice(body);
    v
}

fn le24(v: u32) -> [u8; 3] {
    [(v & 0xFF) as u8, ((v >> 8) & 0xFF) as u8, ((v >> 16) & 0xFF) as u8]
}

fn lossy_still(width: u16, height: u16) -> Vec<u8> {
    let mut payload = Vec::new();
    payload.extend_from_slice(&[0x00, 0x00, 0x00]);
    payload.extend_from_slice(&[0x9d, 0x01, 0x2a]);
    payload.extend_from_slice(&width.to_le_bytes());
    payload.extend_from_slice(&height.to_le_bytes());
    webp_file(&chunk(b"VP8 ", &payload))
}

fn lossless_still(width: u32, height: u32) -> Vec<u8> {
    let header: u32 = (width - 1) | ((height - 1) << 14);
    let mut payload = vec![0x2f];
    payload.extend_from_slice(&header.to_le_bytes());
    payload.push(0);
    webp_file(&chunk(b"VP8L", &payload))
}

fn vp8x_payload(flags: u8, width: u32, height: u32) -> Vec<u8> {
    let mut p = vec![flags, 0, 0, 0];
    p.extend_from_slice(&le24(width - 1));
    p.extend_from_slice(&le24(height - 1));
    p
}

/// An animation-frame chunk: the 16 fixed bytes, then one nested chunk.
fn anmf(x: u32, y: u32, w: u32, h: u32, dur: u32, flags: u8, sub: &[u8]) -> Vec<u8> {
    let mut p = Vec::new();
    p.extend_from_slice(&le24(x / 2));
    p.extend_from_slice(&le24(y / 2));
    p.extend_from_slice(&le24(w - 1));
    p.extend_from_slice(&le24(h - 1));
    p.extend_from_slice(&le24(dur));
    p.push(flags);
    p.extend_from_slice(sub);
    chunk(b"ANMF", &p)
}

fn solid_frame(w: u32, h: u32, rgba: [u8; 4]) -> DecodedFrame {
    let mut v = Vec::new();
    for _ in 0..(w * h) {
        v.extend_from_slice(&rgba);
    }
    DecodedFrame { width: w, height: h, rgba: v }
}

fn animated_two_frames(loop_count: u16, bg: [u8; 4]) -> Vec<u8> {
    let mut anim_payload = Vec::new();
    anim_payload.extend_from_slice(&bg);
    anim_payload.extend_from_slice(&loop_count.to_le_bytes());
    let sub1 = chunk(b"VP8L", &[0u8; 8]);
    let sub2 = chunk(b"VP8L", &[0u8; 8]);
    let mut body = Vec::new();
    // alpha flag (0x10) and animation flag (0x02)
    body.extend_from_slice(&chunk(b"VP8X", &vp8x_payload(0x12, 4, 4)));
    body.extend_from_slice(&chunk(b"ANIM", &anim_payload));
    body.extend_from_slice(&anmf(0, 0, 4, 4, 100, 0x01, &sub1));
    body.extend_from_slice(&anmf(0, 0, 2, 2, 50, 0x00, &sub2));
    webp_file(&body)
}

#[test]
fn add_with_overflow_size() {
    let bytes = vec![
        0x52, 0x49, 0x46, 0x46, 0xaf, 0x37, 0x80, 0x47, 0x57, 0x45, 0x42, 0x50, 0x6c, 0x64,
        0x00, 0x00, 0xff, 0xff, 0xff, 0xff, 0xfb, 0x7e, 0x73, 0x00, 0x06, 0x00, 0x00, 0x00,
        0x00, 0x00, 0x00, 0x00, 0x05, 0x00, 0x00, 0x00, 0x65, 0x65, 0x65, 0x65, 0x65, 0x65,
        0x40, 0xfb, 0xff, 0xff, 0x65, 0x65, 0x65, 0x65, 0x65, 0x65, 0x65, 0x65, 0x65, 0x65,
        0x00, 0x00, 0x00, 0x00, 0x62, 0x00, 0x10, 0x00, 0x00, 0x00, 0x00, 0x00, 0x00, 0x49,
        0x49, 0x54, 0x55, 0x50, 0x4c, 0x54, 0x59, 0x50, 0x45, 0x33, 0x37, 0x44, 0x4d, 0x46,
    ];

    let data = bytes;

    let _ = WebPDecoder::new(data);
}

#[test]
fn lossy_still_dimensions() {
    let d = WebPDecoder::new(lossy_still(320, 240)).unwrap();
    assert_eq!(d.dimensions(), (320, 240));
    assert!(!d.has_alpha());
    assert!(!d.has_animation());
}

#[test]
fn lossy_still_dimensions_masked_to_14_bits() {
    // The two 16-bit fields keep only their low 14 bits.
    let d = WebPDecoder::new(lossy_still(0x4001, 0x8002)).unwrap();
    assert_eq!(d.dimensions(), (1, 2));
}

#[test]
fn lossless_still_dimensions() {
    let d = WebPDecoder::new(lossless_still(1920, 1080)).unwrap();
    assert_eq!(d.dimensions(), (1920, 1080));
    assert!(d.has_alpha());
    assert!(!d.has_animation());
}

#[test]
fn lossless_still_offset_by_one_maximum() {
    let d = WebPDecoder::new(lossless_still(0x4000, 0x4000)).unwrap();
    assert_eq!(d.dimensions(), (0x4000, 0x4000));
}

#[test]
fn extended_dimensions_from_canvas_fields() {
    let mut body = Vec::new();
    body.extend_from_slice(&chunk(b"VP8X", &vp8x_payload(0x00, 7, 9)));
    body.extend_from_slice(&chunk(b"VP8L", &[0u8; 8]));
    let d = WebPDecoder::new(webp_file(&body)).unwrap();
    assert_eq!(d.dimensions(), (7, 9));
}

#[test]
fn riff_signature_invalid() {
    let mut data = lossy_still(4, 4);
    data[0] = b'X';
    assert!(matches!(WebPDecoder::new(data), Err(DecodingError::RiffSignatureInvalid)));
}

#[test]
fn webp_signature_invalid() {
    let mut data = lossy_still(4, 4);
    data[8] = b'X';
    assert!(matches!(WebPDecoder::new(data), Err(DecodingError::WebpSignatureInvalid)));
}

#[test]
fn unknown_top_level_chunk_rejected() {
    let data = webp_file(&chunk(b"ABCD", &[0u8; 8]));
    assert!(matches!(WebPDecoder::new(data), Err(DecodingError::ChunkHeaderInvalid)));
}

#[test]
fn truncated_input_is_io_error() {
    assert!(matches!(WebPDecoder::new(b"RIFF".to_vec()), Err(DecodingError::IoError)));
    assert!(matches!(WebPDecoder::new(b"RIFF\x00\x00\x00\x00WE".to_vec()), Err(DecodingError::IoError)));
}

#[test]
fn non_keyframe_lossy_unsupported() {
    let mut data = lossy_still(4, 4);
    data[20] = 0x01;
    assert!(matches!(WebPDecoder::new(data), Err(DecodingError::UnsupportedFeature)));
}

#[test]
fn vp8_magic_invalid() {
    let mut data = lossy_still(4, 4);
    data[23] = 0x00;
    assert!(matches!(WebPDecoder::new(data), Err(DecodingError::Vp8MagicInvalid)));
}

#[test]
fn lossless_signature_invalid() {
    let mut data = lossless_still(4, 4);
    data[20] = 0x30;
    assert!(matches!(WebPDecoder::new(data), Err(DecodingError::LosslessSignatureInvalid)));
}

#[test]
fn lossless_version_number_invalid() {
    let mut data = lossless_still(4, 4);
    data[24] |= 0xE0;
    assert!(matches!(WebPDecoder::new(data), Err(DecodingError::VersionNumberInvalid)));
}

#[test]
fn animation_flag_without_chunks_is_missing() {
    let mut body = Vec::new();
    body.extend_from_slice(&chunk(b"VP8X", &vp8x_payload(0x02, 4, 4)));
    body.extend_from_slice(&chunk(b"VP8L", &[0u8; 8]));
    assert!(matches!(WebPDecoder::new(webp_file(&body)), Err(DecodingError::ChunkMissing)));
}

#[test]
fn icc_flag_without_chunk_is_missing() {
    let mut body = Vec::new();
    body.extend_from_slice(&chunk(b"VP8X", &vp8x_payload(0x20, 4, 4)));
    body.extend_from_slice(&chunk(b"VP8L", &[0u8; 8]));
    assert!(matches!(WebPDecoder::new(webp_file(&body)), Err(DecodingError::ChunkMissing)));
}

#[test]
fn exif_flag_without_chunk_is_missing() {
    let mut body = Vec::new();
    body.extend_from_slice(&chunk(b"VP8X", &vp8x_payload(0x08, 4, 4)));
    body.extend_from_slice(&chunk(b"VP8L", &[0u8; 8]));
    assert!(matches!(WebPDecoder::new(webp_file(&body)), Err(DecodingError::ChunkMissing)));
}

#[test]
fn xmp_flag_without_chunk_is_missing() {
    let mut body = Vec::new();
    body.extend_from_slice(&chunk(b"VP8X", &vp8x_payload(0x04, 4, 4)));
    body.extend_from_slice(&chunk(b"VP8L", &[0u8; 8]));
    assert!(matches!(WebPDecoder::new(webp_file(&body)), Err(DecodingError::ChunkMissing)));
}

#[test]
fn extended_without_any_bitstream_is_missing() {
    let body = chunk(b"VP8X", &vp8x_payload(0x00, 4, 4));
    assert!(matches!(WebPDecoder::new(webp_file(&body)), Err(DecodingError::ChunkMissing)));
}

#[test]
fn odd_chunk_occupies_padded_space() {
    // An odd-sized ICC chunk is recorded unpadded while the scan moves past
    // its padding byte and still finds the EXIF chunk that follows.
    let mut body = Vec::new();
    body.extend_from_slice(&chunk(b"VP8X", &vp8x_payload(0x28, 4, 4)));
    body.extend_from_slice(&chunk(b"VP8L", &[0u8; 8]));
    body.extend_from_slice(&chunk(b"ICCP", &[1, 2, 3]));
    body.extend_from_slice(&chunk(b"EXIF", &[4, 5, 6, 7]));
    let mut d = WebPDecoder::new(webp_file(&body)).unwrap();
    assert_eq!(d.icc_profile().unwrap(), Some(vec![1, 2, 3]));
    assert_eq!(d.exif_metadata().unwrap(), Some(vec![4, 5, 6, 7]));
    assert_eq!(d.xmp_metadata().unwrap(), None);
}

#[test]
fn memory_limit_bounds_metadata() {
    let mut body = Vec::new();
    body.extend_from_slice(&chunk(b"VP8X", &vp8x_payload(0x20, 4, 4)));
    body.extend_from_slice(&chunk(b"VP8L", &[0u8; 8]));
    body.extend_from_slice(&chunk(b"ICCP", &[1, 2, 3, 4]));
    let mut d = WebPDecoder::new(webp_file(&body)).unwrap();
    d.set_memory_limit(3);
    assert!(matches!(d.icc_profile(), Err(DecodingError::MemoryLimitExceeded)));
    d.set_memory_limit(4);
    assert_eq!(d.icc_profile().unwrap(), Some(vec![1, 2, 3, 4]));
}

#[test]
fn anim_chunk_oversized_payload_rejected() {
    let mut anim_payload = vec![0, 0, 0, 0, 0, 0];
    anim_payload.extend_from_slice(&[0, 0]);
    let sub = chunk(b"VP8L", &[0u8; 8]);
    let mut body = Vec::new();
    body.extend_from_slice(&chunk(b"VP8X", &vp8x_payload(0x02, 4, 4)));
    body.extend_from_slice(&chunk(b"ANIM", &anim_payload));
    body.extend_from_slice(&anmf(0, 0, 4, 4, 100, 0, &sub));
    assert!(matches!(WebPDecoder::new(webp_file(&body)), Err(DecodingError::InvalidChunkSize)));
}

#[test]
fn set_background_color_needs_animated_extended() {
    // a still is rejected
    let mut d = WebPDecoder::new(lossy_still(4, 4)).unwrap();
    assert!(matches!(d.set_background_color([1, 2, 3, 4]), Err(DecodingError::InvalidParameter)));
    // an extended container without animation is rejected too
    let mut body = Vec::new();
    body.extend_from_slice(&chunk(b"VP8X", &vp8x_payload(0x00, 4, 4)));
    body.extend_from_slice(&chunk(b"VP8L", &[0u8; 8]));
    let mut e = WebPDecoder::new(webp_file(&body)).unwrap();
    assert!(matches!(e.set_background_color([1, 2, 3, 4]), Err(DecodingError::InvalidParameter)));
    // an animated extended container accepts the color, and disposal then
    // clears to it
    let mut a = WebPDecoder::new(animated_two_frames(1, [9, 8, 7, 255])).unwrap();
    a.set_background_color([40, 41, 42, 255]).unwrap();
    let mut buf = vec![0u8; 4 * 4 * 4];
    let f1 = solid_frame(4, 4, [1, 2, 3, 255]);
    let f2 = solid_frame(2, 2, [4, 5, 6, 255]);
    a.read_frame(&mut buf, &f1).unwrap();
    a.read_frame(&mut buf, &f2).unwrap();
    assert_eq!(&buf[4 * 15..4 * 15 + 4], &[40, 41, 42, 255]);
}

#[test]
fn output_buffer_size_matches_pixel_format() {
    let d = WebPDecoder::new(lossy_still(5, 3)).unwrap();
    assert_eq!(d.output_buffer_size(), 5 * 3 * 3);
    let e = WebPDecoder::new(lossless_still(5, 3)).unwrap();
    assert_eq!(e.output_buffer_size(), 5 * 3 * 4);
}

#[test]
fn single_pixel_lossless_with_alpha() {
    // A 1-by-1 extended, non-animated container with has-alpha set and one
    // lossless payload: the output buffer holds one RGBA pixel.
    let mut body = Vec::new();
    body.extend_from_slice(&chunk(b"VP8X", &vp8x_payload(0x10, 1, 1)));
    body.extend_from_slice(&chunk(b"VP8L", &[0x2f, 0, 0, 0, 0, 0]));
    let mut d = WebPDecoder::new(webp_file(&body)).unwrap();
    assert!(d.has_alpha());
    assert_eq!(d.output_buffer_size(), 4);
    let mut buf = vec![0u8; 4];
    let frame = solid_frame(1, 1, [17, 34, 51, 255]);
    d.read_image(&mut buf, &frame).unwrap();
    assert_eq!(buf, vec![17, 34, 51, 255]);
}

#[test]
fn read_image_checks_decoded_size() {
    let mut d = WebPDecoder::new(lossless_still(2, 2)).unwrap();
    let mut buf = vec![0u8; 2 * 2 * 4];
    let frame = solid_frame(3, 2, [0, 0, 0, 255]);
    assert!(matches!(d.read_image(&mut buf, &frame), Err(DecodingError::InconsistentImageSizes)));
}

#[test]
fn read_image_drops_alpha_for_opaque_lossy() {
    let mut d = WebPDecoder::new(lossy_still(2, 1)).unwrap();
    let mut buf = vec![0u8; 2 * 1 * 3];
    let mut frame = solid_frame(2, 1, [10, 20, 30, 255]);
    frame.rgba[4] = 40;
    frame.rgba[5] = 50;
    frame.rgba[6] = 60;
    d.read_image(&mut buf, &frame).unwrap();
    assert_eq!(buf, vec![10, 20, 30, 40, 50, 60]);
}

#[test]
fn alpha_residual_without_filter_round_trips() {
    // Filtering method "none": the reconstructed alpha plane equals the
    // residual byte for byte.
    let residual = [200u8, 3, 255, 0];
    let mut alph_payload = vec![0u8];
    alph_payload.extend_from_slice(&residual);
    let mut body = Vec::new();
    body.extend_from_slice(&chunk(b"VP8X", &vp8x_payload(0x10, 2, 2)));
    body.extend_from_slice(&chunk(b"VP8 ", &[0u8; 8]));
    body.extend_from_slice(&chunk(b"ALPH", &alph_payload));
    let mut d = WebPDecoder::new(webp_file(&body)).unwrap();
    assert!(d.has_alpha());
    assert!(d.is_lossy());
    let mut buf = vec![0u8; 2 * 2 * 4];
    let frame = solid_frame(2, 2, [7, 8, 9, 255]);
    d.read_image(&mut buf, &frame).unwrap();
    for p in 0..4 {
        assert_eq!(&buf[4 * p..4 * p + 3], &[7, 8, 9]);
        assert_eq!(buf[4 * p + 3], residual[p]);
    }
}

#[test]
fn alpha_horizontal_filter_accumulates() {
    // Horizontal filtering on one row: each sample is the left neighbor
    // plus the residual, modulo 256.
    let mut alph_payload = vec![0b0000_0100u8];
    alph_payload.extend_from_slice(&[10, 20, 250]);
    let mut body = Vec::new();
    body.extend_from_slice(&chunk(b"VP8X", &vp8x_payload(0x10, 3, 1)));
    body.extend_from_slice(&chunk(b"VP8 ", &[0u8; 8]));
    body.extend_from_slice(&chunk(b"ALPH", &alph_payload));
    let mut d = WebPDecoder::new(webp_file(&body)).unwrap();
    let mut buf = vec![0u8; 3 * 4];
    let frame = solid_frame(3, 1, [0, 0, 0, 255]);
    d.read_image(&mut buf, &frame).unwrap();
    assert_eq!(buf[3], 10);
    assert_eq!(buf[7], 30);
    assert_eq!(buf[11], ((30u32 + 250) % 256) as u8);
}

#[test]
fn alpha_chunk_shorter_than_plane_rejected() {
    let mut body = Vec::new();
    body.extend_from_slice(&chunk(b"VP8X", &vp8x_payload(0x10, 2, 2)));
    body.extend_from_slice(&chunk(b"VP8 ", &[0u8; 8]));
    body.extend_from_slice(&chunk(b"ALPH", &[0u8, 1, 2]));
    let mut d = WebPDecoder::new(webp_file(&body)).unwrap();
    let mut buf = vec![0u8; 2 * 2 * 4];
    let frame = solid_frame(2, 2, [0, 0, 0, 255]);
    assert!(matches!(d.read_image(&mut buf, &frame), Err(DecodingError::AlphaChunkSizeMismatch)));
}

#[test]
fn animation_plays_frames_then_stops() {
    // Two frames, one loop: two reads return durations, the third reports
    // the end of the animation.
    let mut d = WebPDecoder::new(animated_two_frames(1, [9, 8, 7, 255])).unwrap();
    assert!(d.has_animation());
    let mut buf = vec![0u8; 4 * 4 * 4];
    let f1 = solid_frame(4, 4, [1, 2, 3, 255]);
    let f2 = solid_frame(2, 2, [4, 5, 6, 255]);
    assert_eq!(d.read_frame(&mut buf, &f1).unwrap(), Some(100));
    assert_eq!(d.read_frame(&mut buf, &f2).unwrap(), Some(50));
    assert_eq!(d.read_frame(&mut buf, &f1).unwrap(), None);
    assert_eq!(d.read_frame(&mut buf, &f1).unwrap(), None);
}

#[test]
fn animation_loops_twice_before_done() {
    let mut d = WebPDecoder::new(animated_two_frames(2, [9, 8, 7, 255])).unwrap();
    let mut buf = vec![0u8; 4 * 4 * 4];
    let f1 = solid_frame(4, 4, [1, 2, 3, 255]);
    let f2 = solid_frame(2, 2, [4, 5, 6, 255]);
    for _ in 0..2 {
        assert_eq!(d.read_frame(&mut buf, &f1).unwrap(), Some(100));
        assert_eq!(d.read_frame(&mut buf, &f2).unwrap(), Some(50));
    }
    assert_eq!(d.read_frame(&mut buf, &f1).unwrap(), None);
}

#[test]
fn infinite_loop_count_never_stops() {
    let mut d = WebPDecoder::new(animated_two_frames(0, [9, 8, 7, 255])).unwrap();
    let mut buf = vec![0u8; 4 * 4 * 4];
    let f1 = solid_frame(4, 4, [1, 2, 3, 255]);
    let f2 = solid_frame(2, 2, [4, 5, 6, 255]);
    for _ in 0..5 {
        assert_eq!(d.read_frame(&mut buf, &f1).unwrap(), Some(100));
        assert_eq!(d.read_frame(&mut buf, &f2).unwrap(), Some(50));
    }
}

#[test]
fn disposal_clears_to_background() {
    // Frame 1 covers the whole canvas and asks for disposal; frame 2 is a
    // smaller opaque square, so everything outside it shows the background.
    let bg = [9, 8, 7, 255];
    let mut d = WebPDecoder::new(animated_two_frames(1, bg)).unwrap();
    let mut buf = vec![0u8; 4 * 4 * 4];
    let f1 = solid_frame(4, 4, [1, 2, 3, 255]);
    let f2 = solid_frame(2, 2, [4, 5, 6, 255]);
    d.read_frame(&mut buf, &f1).unwrap();
    for p in 0..16 {
        assert_eq!(&buf[4 * p..4 * p + 4], &[1, 2, 3, 255]);
    }
    d.read_frame(&mut buf, &f2).unwrap();
    // inside the 2-by-2 rectangle: the new frame's pixels
    assert_eq!(&buf[0..4], &[4, 5, 6, 255]);
    assert_eq!(&buf[4 * 5..4 * 5 + 4], &[4, 5, 6, 255]);
    // outside it: the background color, not frame 1's pixels
    assert_eq!(&buf[4 * 2..4 * 2 + 4], &bg);
    assert_eq!(&buf[4 * 15..4 * 15 + 4], &bg);
}

#[test]
fn frame_outside_canvas_rejected() {
    let mut anim_payload = vec![0, 0, 0, 0];
    anim_payload.extend_from_slice(&1u16.to_le_bytes());
    let sub = chunk(b"VP8L", &[0u8; 8]);
    let mut body = Vec::new();
    body.extend_from_slice(&chunk(b"VP8X", &vp8x_payload(0x12, 2, 2)));
    body.extend_from_slice(&chunk(b"ANIM", &anim_payload));
    body.extend_from_slice(&anmf(0, 0, 4, 4, 10, 0, &sub));
    let mut d = WebPDecoder::new(webp_file(&body)).unwrap();
    let mut buf = vec![0u8; 2 * 2 * 4];
    let f = solid_frame(4, 4, [0, 0, 0, 255]);
    assert!(matches!(d.read_frame(&mut buf, &f), Err(DecodingError::FrameOutsideImage)));
}

#[test]
fn frame_reserved_bits_rejected() {
    let mut anim_payload = vec![0, 0, 0, 0];
    anim_payload.extend_from_slice(&1u16.to_le_bytes());
    let sub = chunk(b"VP8L", &[0u8; 8]);
    let mut body = Vec::new();
    body.extend_from_slice(&chunk(b"VP8X", &vp8x_payload(0x12, 4, 4)));
    body.extend_from_slice(&chunk(b"ANIM", &anim_payload));
    body.extend_from_slice(&anmf(0, 0, 4, 4, 10, 0x80, &sub));
    let mut d = WebPDecoder::new(webp_file(&body)).unwrap();
    let mut buf = vec![0u8; 4 * 4 * 4];
    let f = solid_frame(4, 4, [0, 0, 0, 255]);
    assert!(matches!(d.read_frame(&mut buf, &f), Err(DecodingError::InfoBitsInvalid)));
}

#[test]
fn animated_lossless_is_not_lossy() {
    let mut d = WebPDecoder::new(animated_two_frames(1, [0, 0, 0, 0])).unwrap();
    assert!(!d.is_lossy());
}

#[test]
fn fourcc_round_trip() {
    for tag in [b"RIFF", b"WEBP", b"VP8 ", b"VP8L", b"VP8X", b"ANIM", b"ANMF", b"ALPH", b"ICCP",
        b"EXIF", b"XMP ", b"ZZZZ"] {
        let parsed = WebPRiffChunk::from_fourcc(*tag);
        assert_eq!(parsed.to_fourcc(), *tag);
    }
    assert!(WebPRiffChunk::from_fourcc(*b"ZZZZ").is_unknown());
    assert!(!WebPRiffChunk::from_fourcc(*b"ANMF").is_unknown());
}

#[test]
fn read_image_of_first_animation_frame() {
    // The first frame's nested lossless chunk is indexed at open time, so
    // still extraction works on an animated file.
    let mut d = WebPDecoder::new(animated_two_frames(1, [9, 8, 7, 255])).unwrap();
    let mut buf = vec![0u8; 4 * 4 * 4];
    let f1 = solid_frame(4, 4, [1, 2, 3, 255]);
    d.read_image(&mut buf, &f1).unwrap();
    assert_eq!(&buf[0..4], &[1, 2, 3, 255]);
}

#[test]
fn animated_lossy_frame_detected_by_peek() {
    // The nested chunk of an animation frame is inspected during the scan:
    // a lossy (or alpha-coded) bitstream marks the whole image lossy.
    let mut anim_payload = vec![0, 0, 0, 0];
    anim_payload.extend_from_slice(&1u16.to_le_bytes());
    let sub = chunk(b"VP8 ", &[0u8; 8]);
    let mut body = Vec::new();
    body.extend_from_slice(&chunk(b"VP8X", &vp8x_payload(0x12, 4, 4)));
    body.extend_from_slice(&chunk(b"ANIM", &anim_payload));
    body.extend_from_slice(&anmf(0, 0, 4, 4, 10, 0, &sub));
    let mut d = WebPDecoder::new(webp_file(&body)).unwrap();
    assert!(d.is_lossy());
}

#[test]
fn partial_alpha_blends_over_previous_frame() {
    // Frame 1 keeps the canvas (no disposal); frame 2 is half transparent
    // and blends with source-over arithmetic.
    let mut anim_payload = vec![0, 0, 0, 0];
    anim_payload.extend_from_slice(&1u16.to_le_bytes());
    let sub1 = chunk(b"VP8L", &[0u8; 8]);
    let sub2 = chunk(b"VP8L", &[0u8; 8]);
    let mut body = Vec::new();
    body.extend_from_slice(&chunk(b"VP8X", &vp8x_payload(0x12, 2, 2)));
    body.extend_from_slice(&chunk(b"ANIM", &anim_payload));
    body.extend_from_slice(&anmf(0, 0, 2, 2, 10, 0x00, &sub1));
    body.extend_from_slice(&anmf(0, 0, 2, 2, 10, 0x00, &sub2));
    let mut d = WebPDecoder::new(webp_file(&body)).unwrap();
    let mut buf = vec![0u8; 2 * 2 * 4];
    let f1 = solid_frame(2, 2, [100, 100, 100, 255]);
    let f2 = solid_frame(2, 2, [200, 200, 200, 128]);
    d.read_frame(&mut buf, &f1).unwrap();
    d.read_frame(&mut buf, &f2).unwrap();
    // weight = 255*128 + 255*(255-128) = 255*255, so the blended alpha is
    // 255 and each channel is (200*128*255 + 100*255*127) / (255*255) = 150
    assert_eq!(&buf[0..4], &[150, 150, 150, 255]);
}

#[test]
fn duplicate_chunks_keep_first_occurrence() {
    let mut body = Vec::new();
    body.extend_from_slice(&chunk(b"VP8X", &vp8x_payload(0x20, 4, 4)));
    body.extend_from_slice(&chunk(b"VP8L", &[0u8; 8]));
    body.extend_from_slice(&chunk(b"ICCP", &[1, 2]));
    body.extend_from_slice(&chunk(b"ICCP", &[3, 4]));
    let mut d = WebPDecoder::new(webp_file(&body)).unwrap();
    assert_eq!(d.icc_profile().unwrap(), Some(vec![1, 2]));
}

#[test]
fn unknown_chunk_terminates_the_scan() {
    // An unrecognized tag ends the chunk list; what follows it is ignored.
    let mut body = Vec::new();
    body.extend_from_slice(&chunk(b"VP8X", &vp8x_payload(0x00, 4, 4)));
    body.extend_from_slice(&chunk(b"VP8L", &[0u8; 8]));
    body.extend_from_slice(&chunk(b"QQQQ", &[0u8; 4]));
    body.extend_from_slice(&chunk(b"ICCP", &[1, 2]));
    let mut d = WebPDecoder::new(webp_file(&body)).unwrap();
    assert_eq!(d.icc_profile().unwrap(), None);
}

#[test]
fn next_frame_bitstream_locates_nested_chunk() {
    let mut d = WebPDecoder::new(animated_two_frames(1, [0, 0, 0, 0])).unwrap();
    let (tag, range) = d.next_frame_bitstream().unwrap().unwrap();
    assert!(matches!(tag, WebPRiffChunk::VP8L));
    assert_eq!(range.end - range.start, 8);
    let mut buf = vec![0u8; 4 * 4 * 4];
    let f1 = solid_frame(4, 4, [1, 2, 3, 255]);
    let f2 = solid_frame(2, 2, [4, 5, 6, 255]);
    d.read_frame(&mut buf, &f1).unwrap();
    d.read_frame(&mut buf, &f2).unwrap();
    // the animation is over: no bitstream is due
    assert_eq!(d.next_frame_bitstream().unwrap(), None);
}

#[test]
fn reserved_bits_reported_before_bad_rectangle() {
    // A frame violating both the reserved-bits rule and the canvas bounds
    // reports the info-bits error: the flags byte is validated first.
    let mut anim_payload = vec![0, 0, 0, 0];
    anim_payload.extend_from_slice(&1u16.to_le_bytes());
    let sub = chunk(b"VP8L", &[0u8; 8]);
    let mut body = Vec::new();
    body.extend_from_slice(&chunk(b"VP8X", &vp8x_payload(0x12, 2, 2)));
    body.extend_from_slice(&chunk(b"ANIM", &anim_payload));
    body.extend_from_slice(&anmf(0, 0, 4, 4, 10, 0x80, &sub));
    let mut d = WebPDecoder::new(webp_file(&body)).unwrap();
    let mut buf = vec![0u8; 2 * 2 * 4];
    let f = solid_frame(4, 4, [0, 0, 0, 255]);
    assert!(matches!(d.read_frame(&mut buf, &f), Err(DecodingError::InfoBitsInvalid)));
}
