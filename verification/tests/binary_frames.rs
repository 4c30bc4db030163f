use harp::lidar::{parse_frame, DecodeError};

fn frame_with_header(header_json: &str, payload: &[u8]) -> Vec<u8> {
    let hb = header_json.as_bytes();
    let mut out = Vec::new();
    out.extend_from_slice(&(hb.len() as u32).to_le_bytes());
    out.extend_from_slice(hb);
    out.extend_from_slice(payload);
    out
}

fn make_test_frame(count: usize) -> Vec<u8> {
    let header = format!(
        "{{\"version\":\"1.0\",\"type\":\"point_cloud\",\"frame_id\":\"t1\",\
         \"timestamp\":1700000000000,\"count\":{},\"layout\":\"float32_xyz\",\
         \"stride\":12,\"endianness\":\"le\",\"seq\":0,\"is_last_chunk\":true,\
         \"compression\":null}}",
        count
    );
    let mut payload = Vec::new();
    for i in 0..count {
        payload.extend_from_slice(&(i as f32 + 0.1).to_le_bytes());
        payload.extend_from_slice(&(i as f32 + 0.2).to_le_bytes());
        payload.extend_from_slice(&(i as f32 + 0.3).to_le_bytes());
    }
    frame_with_header(&header, &payload)
}

#[test]
fn test_parse_simple() {
    let buf = make_test_frame(10);
    let (h, pts, confs) = parse_frame(&buf).unwrap();
    assert_eq!(h.count, 10);
    assert_eq!(pts.len(), 10);
    assert!(confs.is_none());
    assert!((f32::from_bits(pts[3].x) - 3.1).abs() < 1e-6);
}

#[test]
fn full_header_round_trip() {
    let buf = make_test_frame(4);
    let (h, _, _) = parse_frame(&buf).unwrap();
    assert_eq!(h.version, "1.0");
    assert_eq!(h.msg_type, "point_cloud");
    assert_eq!(h.frame_id.as_deref(), Some("t1"));
    assert_eq!(h.timestamp, Some(1700000000000));
    assert_eq!(h.layout, "float32_xyz");
    assert_eq!(h.stride, 12);
    assert_eq!(h.endianness.as_deref(), Some("le"));
    assert_eq!(h.seq, Some(0));
    assert_eq!(h.is_last_chunk, Some(true));
    assert!(h.compression.is_none());
}

#[test]
fn xyz_point_values_exact_scenario() {
    let header = "{\"version\":\"1.0\",\"type\":\"point_cloud\",\"count\":10,\
                  \"layout\":\"float32_xyz\",\"stride\":12}";
    let mut payload = Vec::new();
    for i in 0..10 {
        payload.extend_from_slice(&(i as f32 + 0.1).to_le_bytes());
        payload.extend_from_slice(&(i as f32 + 0.2).to_le_bytes());
        payload.extend_from_slice(&(i as f32 + 0.3).to_le_bytes());
    }
    let buf = frame_with_header(header, &payload);
    let (h, pts, confs) = parse_frame(&buf).unwrap();
    assert_eq!(h.count, 10);
    assert_eq!(pts.len(), 10);
    assert!(confs.is_none());
    assert!((f32::from_bits(pts[3].x) - 3.1).abs() < 1e-6);
    assert!((f32::from_bits(pts[3].y) - 3.2).abs() < 1e-6);
    assert!((f32::from_bits(pts[3].z) - 3.3).abs() < 1e-6);
}

#[test]
fn conf_layout_counts_points_and_confidences() {
    let count = 5;
    let stride = 16;
    let header = format!(
        "{{\"version\":\"1.0\",\"type\":\"point_cloud\",\"count\":{},\
         \"layout\":\"float32_xyz_conf\",\"stride\":{}}}",
        count, stride
    );
    let mut payload = Vec::new();
    for i in 0..count {
        payload.extend_from_slice(&(i as f32).to_le_bytes());
        payload.extend_from_slice(&(i as f32 * 2.0).to_le_bytes());
        payload.extend_from_slice(&(i as f32 * 3.0).to_le_bytes());
        payload.push(100 + i as u8);
        // padding bytes, which must be skipped and never read as data
        payload.extend_from_slice(&[0xAA, 0xBB, 0xCC]);
    }
    let buf = frame_with_header(&header, &payload);
    let (h, pts, confs) = parse_frame(&buf).unwrap();
    assert_eq!(h.count, count);
    assert_eq!(pts.len(), count);
    let cs = confs.unwrap();
    assert_eq!(cs.len(), count);
    for i in 0..count {
        assert_eq!(cs[i], 100 + i as u8);
        assert!((f32::from_bits(pts[i].x) - i as f32).abs() < 1e-6);
        assert!((f32::from_bits(pts[i].y) - i as f32 * 2.0).abs() < 1e-6);
        assert!((f32::from_bits(pts[i].z) - i as f32 * 3.0).abs() < 1e-6);
    }
}

#[test]
fn conf_layout_last_padding_may_be_missing() {
    let header = "{\"version\":\"1\",\"type\":\"pc\",\"count\":2,\
                  \"layout\":\"float32_xyz_conf\",\"stride\":16}";
    let mut payload = Vec::new();
    for i in 0..2 {
        payload.extend_from_slice(&(i as f32).to_le_bytes());
        payload.extend_from_slice(&(i as f32).to_le_bytes());
        payload.extend_from_slice(&(i as f32).to_le_bytes());
        payload.push(7);
        if i == 0 {
            payload.extend_from_slice(&[0, 0, 0]);
        }
    }
    let buf = frame_with_header(header, &payload);
    let (_, pts, confs) = parse_frame(&buf).unwrap();
    assert_eq!(pts.len(), 2);
    assert_eq!(confs.unwrap().len(), 2);
}

#[test]
fn truncated_xyz_payload_is_rejected() {
    let header = "{\"version\":\"1\",\"type\":\"pc\",\"count\":10,\
                  \"layout\":\"float32_xyz\",\"stride\":12}";
    let mut payload = Vec::new();
    for i in 0..5 {
        payload.extend_from_slice(&(i as f32).to_le_bytes());
        payload.extend_from_slice(&(i as f32).to_le_bytes());
        payload.extend_from_slice(&(i as f32).to_le_bytes());
    }
    let buf = frame_with_header(header, &payload);
    assert!(matches!(parse_frame(&buf), Err(DecodeError::TruncatedPayload)));
}

#[test]
fn truncated_conf_payload_is_rejected() {
    let header = "{\"version\":\"1\",\"type\":\"pc\",\"count\":3,\
                  \"layout\":\"float32_xyz_conf\",\"stride\":16}";
    let payload = vec![0u8; 16];
    let buf = frame_with_header(header, &payload);
    assert!(matches!(parse_frame(&buf), Err(DecodeError::TruncatedPayload)));
}

#[test]
fn huge_declared_count_is_rejected_without_reading_far() {
    let header = "{\"version\":\"1\",\"type\":\"pc\",\"count\":4000000000,\
                  \"layout\":\"float32_xyz\",\"stride\":12}";
    let buf = frame_with_header(header, &[0u8; 24]);
    assert!(matches!(parse_frame(&buf), Err(DecodeError::TruncatedPayload)));
}

#[test]
fn unsupported_layout_is_named_in_the_error() {
    let header = "{\"version\":\"1\",\"type\":\"pc\",\"count\":0,\
                  \"layout\":\"xyz_rgb_custom\",\"stride\":12}";
    let buf = frame_with_header(header, &[]);
    match parse_frame(&buf) {
        Err(DecodeError::UnsupportedLayout(l)) => assert_eq!(l, "xyz_rgb_custom"),
        other => panic!("expected unsupported layout, got {:?}", other.map(|_| ())),
    }
}

#[test]
fn short_buffer_is_a_format_error() {
    assert!(matches!(parse_frame(&[1, 2]), Err(DecodeError::Format)));
    assert!(matches!(parse_frame(&[]), Err(DecodeError::Format)));
}

#[test]
fn header_length_beyond_buffer_is_a_format_error() {
    let mut buf = Vec::new();
    buf.extend_from_slice(&1000u32.to_le_bytes());
    buf.extend_from_slice(b"{}");
    assert!(matches!(parse_frame(&buf), Err(DecodeError::Format)));
}

#[test]
fn missing_required_field_is_a_format_error() {
    // no count
    let header = "{\"version\":\"1\",\"type\":\"pc\",\"layout\":\"float32_xyz\",\"stride\":12}";
    let buf = frame_with_header(header, &[]);
    assert!(matches!(parse_frame(&buf), Err(DecodeError::Format)));
}

#[test]
fn duplicate_field_is_a_format_error() {
    let header = "{\"version\":\"1\",\"version\":\"2\",\"type\":\"pc\",\"count\":0,\
                  \"layout\":\"float32_xyz\",\"stride\":12}";
    let buf = frame_with_header(header, &[]);
    assert!(matches!(parse_frame(&buf), Err(DecodeError::Format)));
}

#[test]
fn unknown_fields_are_ignored() {
    let header = "{\"version\":\"1\",\"type\":\"pc\",\"count\":0,\
                  \"layout\":\"float32_xyz\",\"stride\":12,\
                  \"extra\":{\"a\":[1,2,{\"b\":\"]}\"}]},\"more\":true}";
    let buf = frame_with_header(header, &[]);
    let (h, pts, _) = parse_frame(&buf).unwrap();
    assert_eq!(h.count, 0);
    assert_eq!(pts.len(), 0);
}

#[test]
fn declared_compression_is_ignored_and_payload_read_uncompressed() {
    let header = "{\"version\":\"1\",\"type\":\"pc\",\"count\":1,\
                  \"layout\":\"float32_xyz\",\"stride\":12,\"compression\":\"zstd\"}";
    let mut payload = Vec::new();
    payload.extend_from_slice(&1.5f32.to_le_bytes());
    payload.extend_from_slice(&2.5f32.to_le_bytes());
    payload.extend_from_slice(&3.5f32.to_le_bytes());
    let buf = frame_with_header(header, &payload);
    let (h, pts, _) = parse_frame(&buf).unwrap();
    assert_eq!(h.compression.as_deref(), Some("zstd"));
    assert!((f32::from_bits(pts[0].x) - 1.5).abs() < 1e-6);
}

#[test]
fn escaped_strings_in_header_are_unescaped() {
    let header = "{\"version\":\"1\",\"type\":\"pc\",\"count\":0,\
                  \"layout\":\"float32_xyz\",\"stride\":12,\
                  \"frame_id\":\"a\\u0041\\n\\\"b\\\"\"}";
    let buf = frame_with_header(header, &[]);
    let (h, _, _) = parse_frame(&buf).unwrap();
    assert_eq!(h.frame_id.as_deref(), Some("aA\n\"b\""));
}

#[test]
fn float_count_is_a_format_error() {
    let header = "{\"version\":\"1\",\"type\":\"pc\",\"count\":10.0,\
                  \"layout\":\"float32_xyz\",\"stride\":12}";
    let buf = frame_with_header(header, &[0u8; 120]);
    assert!(matches!(parse_frame(&buf), Err(DecodeError::Format)));
}

#[test]
fn conf_layout_with_small_stride_uses_thirteen_byte_records() {
    let header = "{\"version\":\"1\",\"type\":\"pc\",\"count\":2,\
                  \"layout\":\"float32_xyz_conf\",\"stride\":4}";
    let mut payload = Vec::new();
    for i in 0..2u8 {
        payload.extend_from_slice(&(i as f32).to_le_bytes());
        payload.extend_from_slice(&(i as f32).to_le_bytes());
        payload.extend_from_slice(&(i as f32).to_le_bytes());
        payload.push(i + 1);
    }
    let buf = frame_with_header(header, &payload);
    let (_, pts, confs) = parse_frame(&buf).unwrap();
    assert_eq!(pts.len(), 2);
    assert_eq!(confs.unwrap(), vec![1, 2]);
}
