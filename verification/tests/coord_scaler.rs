//! Coordinates on screens of several sizes.
use good_scanner::scanner::common::coord_scaler::{CoordScaler, Pos, Rect};

#[test]
fn test_identity_scale() {
    let s = CoordScaler::new(1920, 1080);
    assert_eq!(s.x(100), 100);
    assert_eq!(s.y(200), 200);
}

#[test]
fn test_2x_scale() {
    let s = CoordScaler::new(3840, 2160);
    assert_eq!(s.x(100), 200);
    assert_eq!(s.y(100), 200);
}

#[test]
fn test_common_resolution() {
    let s = CoordScaler::new(2560, 1440);
    // 2560/1920 = 1.333...
    assert_eq!(s.x(1920), 2560);
    assert_eq!(s.y(1080), 1440);
}

#[test]
fn scaled_coordinates_lose_their_fraction() {
    let s = CoordScaler::new(2560, 1440);
    // 100 * 4 / 3 = 133.33...
    assert_eq!(s.x(100), 133);
    assert_eq!(s.y(-100), -133);
    // five twentieths of a unit are a third of a pixel
    assert_eq!(s.x_fine(100), 6);
}

#[test]
fn positions_and_rectangles_scale_part_by_part() {
    let s = CoordScaler::new(960, 540);
    let p = s.pos(100, 51);
    assert_eq!((p.x, p.y), (50, 25));
    let q = s.scale_pos_i32(&Pos { x: 3, y: 4 });
    assert_eq!((q.x, q.y), (1, 2));
    let r = s.rect(10, 20, 30, 40);
    assert_eq!((r.left, r.top, r.width, r.height), (5, 10, 15, 20));
    let t = s.scale_rect_i32(&Rect { left: 2, top: 4, width: 6, height: 8 });
    assert_eq!((t.left, t.top, t.width, t.height), (1, 2, 3, 4));
}
