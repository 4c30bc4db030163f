use harp::downsample::downsample;
use harp::lidar::{Color, FramePoint, LidarFrame, Point};
use harp::relay::{Relay, TakeResult};

fn frame_stamped(ts: u64) -> LidarFrame {
    LidarFrame {
        points: vec![FramePoint::Bin(Point { x: ts as u32, y: 0, z: 0 })],
        colors: None,
        timestamp: Some(ts),
        frame_id: None,
    }
}

#[test]
fn relay_delivers_only_the_freshest_frame() {
    let mut relay = Relay::new();
    relay.publish(frame_stamped(1));
    relay.publish(frame_stamped(2));
    match relay.try_take_latest() {
        TakeResult::Frame(f) => assert_eq!(f.timestamp, Some(2)),
        _ => panic!("expected a frame"),
    }
    assert!(matches!(relay.try_take_latest(), TakeResult::Empty));
}

#[test]
fn relay_reports_closed_once_drained() {
    let mut relay = Relay::new();
    relay.publish(frame_stamped(7));
    relay.close();
    match relay.try_take_latest() {
        TakeResult::Frame(f) => assert_eq!(f.timestamp, Some(7)),
        _ => panic!("expected the published frame first"),
    }
    assert!(matches!(relay.try_take_latest(), TakeResult::Closed));
    assert!(matches!(relay.try_take_latest(), TakeResult::Closed));
}

#[test]
fn relay_empty_before_any_publish() {
    let mut relay = Relay::new();
    assert!(matches!(relay.try_take_latest(), TakeResult::Empty));
}

fn big_frame(n: usize) -> LidarFrame {
    let mut points = Vec::new();
    let mut colors = Vec::new();
    for i in 0..n {
        points.push(FramePoint::Bin(Point { x: i as u32, y: 0, z: 0 }));
        colors.push(Color { r: (i % 256) as u8, g: ((i / 256) % 256) as u8, b: (i / 65536) as u8 });
    }
    LidarFrame { points, colors: Some(colors), timestamp: None, frame_id: None }
}

#[test]
fn downsample_keeps_colors_aligned_with_their_points() {
    let frame = big_frame(30000);
    let out = downsample(frame, 10000);
    let cols = out.colors.unwrap();
    assert_eq!(out.points.len(), cols.len());
    assert_eq!(out.points.len(), 10000);
    for (j, p) in out.points.iter().enumerate() {
        let src = j * 3;
        match p {
            FramePoint::Bin(pt) => assert_eq!(pt.x, src as u32),
            _ => panic!("unexpected point kind"),
        }
        assert_eq!(
            cols[j],
            Color {
                r: (src % 256) as u8,
                g: ((src / 256) % 256) as u8,
                b: (src / 65536) as u8,
            }
        );
    }
}

#[test]
fn downsample_returns_small_frames_unchanged() {
    let frame = big_frame(100);
    let out = downsample(frame, 10000);
    assert_eq!(out.points.len(), 100);
    assert_eq!(out.colors.as_ref().unwrap().len(), 100);
    for (j, p) in out.points.iter().enumerate() {
        match p {
            FramePoint::Bin(pt) => assert_eq!(pt.x, j as u32),
            _ => panic!("unexpected point kind"),
        }
    }
}

#[test]
fn downsample_without_colors_keeps_point_order() {
    let mut points = Vec::new();
    for i in 0..25000usize {
        points.push(FramePoint::Bin(Point { x: i as u32, y: 1, z: 2 }));
    }
    let frame = LidarFrame { points, colors: None, timestamp: Some(5), frame_id: None };
    let out = downsample(frame, 10000);
    assert!(out.colors.is_none());
    assert_eq!(out.timestamp, Some(5));
    // stride two: every second point, order kept
    assert_eq!(out.points.len(), 12500);
    for (j, p) in out.points.iter().enumerate() {
        match p {
            FramePoint::Bin(pt) => assert_eq!(pt.x, (j * 2) as u32),
            _ => panic!("unexpected point kind"),
        }
    }
}
