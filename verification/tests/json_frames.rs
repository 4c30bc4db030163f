use harp::json::JNum;
use harp::lidar::{parse_lidar_json, decode_message, Color, DecodeError, FramePoint};

fn dec_val(n: JNum) -> f64 {
    let v = n.mant as f64 * 10f64.powf(n.exp10 as f64);
    if n.neg {
        -v
    } else {
        v
    }
}

#[test]
fn test_parse_lidar_json() {
    let msg = "{\"type\":\"lidar\",\"data\":[\
               [[1.0,2.0,3.0],[4.0,5.0,6.0]],\
               [[255,0,0],[0,255,0]]]}";
    let (pts, colors) = parse_lidar_json(msg.as_bytes()).unwrap();
    assert_eq!(pts.len(), 2);
    let cols = colors.unwrap();
    assert_eq!(cols[0], Color { r: 255, g: 0, b: 0 });
    assert_eq!(cols[1], Color { r: 0, g: 255, b: 0 });
    assert!((dec_val(pts[1].z) - 6.0).abs() < 1e-6);
}

#[test]
fn json_round_trip_recovers_points_and_colors() {
    let n = 5;
    let mut points_txt = String::new();
    for i in 0..n {
        if i > 0 {
            points_txt.push(',');
        }
        points_txt += &format!("[{}.25,{}.5,{}.75]", i, i, i);
    }
    let mut colors_txt = String::new();
    for i in 0..n {
        if i > 0 {
            colors_txt.push(',');
        }
        colors_txt += "[255,0,0]";
    }
    let msg = format!("{{\"type\":\"lidar\",\"data\":[[{}],[{}]]}}", points_txt, colors_txt);
    let (pts, colors) = parse_lidar_json(msg.as_bytes()).unwrap();
    assert_eq!(pts.len(), n);
    let cols = colors.unwrap();
    assert_eq!(cols.len(), n);
    for i in 0..n {
        assert!((dec_val(pts[i].x) - (i as f64 + 0.25)).abs() < 1e-6);
        assert!((dec_val(pts[i].y) - (i as f64 + 0.5)).abs() < 1e-6);
        assert!((dec_val(pts[i].z) - (i as f64 + 0.75)).abs() < 1e-6);
        assert_eq!(cols[i], Color { r: 255, g: 0, b: 0 });
    }
}

#[test]
fn float_color_channels_map_to_bytes() {
    let msg = "{\"type\":\"lidar\",\"data\":[\
               [[0,0,0]],\
               [[1.0,0.0,0.5]]]}";
    let (_, colors) = parse_lidar_json(msg.as_bytes()).unwrap();
    let cols = colors.unwrap();
    assert_eq!(cols[0], Color { r: 255, g: 0, b: 128 });
}

#[test]
fn color_values_are_clamped_never_overflowed() {
    let msg = "{\"type\":\"lidar\",\"data\":[\
               [[0,0,0],[0,0,0]],\
               [[300,7.5,-1],[2.0,-0.25,0.1]]]}";
    let (_, colors) = parse_lidar_json(msg.as_bytes()).unwrap();
    let cols = colors.unwrap();
    // integer above 255 clamps; 7.5 scales then clamps; a negative floors at 0
    assert_eq!(cols[0], Color { r: 255, g: 255, b: 0 });
    // 2.0 scales to 510 and clamps; -0.25 floors; 0.1 rounds to 26
    assert_eq!(cols[1], Color { r: 255, g: 0, b: 26 });
}

#[test]
fn color_length_mismatch_is_a_format_error() {
    let msg = "{\"type\":\"lidar\",\"data\":[\
               [[1,2,3],[4,5,6]],\
               [[255,0,0]]]}";
    assert!(matches!(parse_lidar_json(msg.as_bytes()), Err(DecodeError::Format)));
}

#[test]
fn wrong_type_tag_is_a_format_error() {
    let msg = "{\"type\":\"headset\",\"data\":[[[1,2,3]],[[0,0,0]]]}";
    assert!(matches!(parse_lidar_json(msg.as_bytes()), Err(DecodeError::Format)));
}

#[test]
fn missing_type_is_a_format_error() {
    let msg = "{\"data\":[[[1,2,3]],[[0,0,0]]]}";
    assert!(matches!(parse_lidar_json(msg.as_bytes()), Err(DecodeError::Format)));
}

#[test]
fn malformed_json_is_a_format_error() {
    assert!(matches!(parse_lidar_json(b"not json"), Err(DecodeError::Format)));
    assert!(matches!(parse_lidar_json(b"{\"type\":\"lidar\""), Err(DecodeError::Format)));
}

#[test]
fn point_with_wrong_arity_is_a_format_error() {
    let msg = "{\"type\":\"lidar\",\"data\":[[[1,2]],[[0,0,0]]]}";
    assert!(matches!(parse_lidar_json(msg.as_bytes()), Err(DecodeError::Format)));
}

#[test]
fn decode_message_tells_the_formats_apart() {
    let msg = "{\"type\":\"lidar\",\"data\":[[[1,2,3]],[[9,8,7]]]}";
    let fr = decode_message(msg.as_bytes()).unwrap();
    assert_eq!(fr.points.len(), 1);
    assert!(matches!(fr.points[0], FramePoint::Json(_)));
    assert!(fr.timestamp.is_none());

    let header = "{\"version\":\"1\",\"type\":\"pc\",\"count\":1,\
                  \"layout\":\"float32_xyz\",\"stride\":12,\"timestamp\":42}";
    let mut buf = Vec::new();
    buf.extend_from_slice(&(header.len() as u32).to_le_bytes());
    buf.extend_from_slice(header.as_bytes());
    buf.extend_from_slice(&1.0f32.to_le_bytes());
    buf.extend_from_slice(&2.0f32.to_le_bytes());
    buf.extend_from_slice(&3.0f32.to_le_bytes());
    let fr2 = decode_message(&buf).unwrap();
    assert_eq!(fr2.points.len(), 1);
    assert!(matches!(fr2.points[0], FramePoint::Bin(_)));
    assert_eq!(fr2.timestamp, Some(42));
}

#[test]
fn confidences_become_grayscale_colors() {
    let header = "{\"version\":\"1\",\"type\":\"pc\",\"count\":2,\
                  \"layout\":\"float32_xyz_conf\",\"stride\":13}";
    let mut buf = Vec::new();
    buf.extend_from_slice(&(header.len() as u32).to_le_bytes());
    buf.extend_from_slice(header.as_bytes());
    for i in 0..2u8 {
        buf.extend_from_slice(&0.0f32.to_le_bytes());
        buf.extend_from_slice(&0.0f32.to_le_bytes());
        buf.extend_from_slice(&0.0f32.to_le_bytes());
        buf.push(40 + i);
    }
    let fr = harp::lidar::decode_binary(&buf).unwrap();
    let cols = fr.colors.unwrap();
    assert_eq!(cols[0], Color { r: 40, g: 40, b: 40 });
    assert_eq!(cols[1], Color { r: 41, g: 41, b: 41 });
}

#[test]
fn empty_point_and_color_lists_decode_to_an_empty_frame() {
    let msg = "{\"type\":\"lidar\",\"data\":[[],[]]}";
    let (pts, colors) = parse_lidar_json(msg.as_bytes()).unwrap();
    assert_eq!(pts.len(), 0);
    assert_eq!(colors.unwrap().len(), 0);
}
