//! Controller checks: construction, viewport adjustment, the mutators and
//! their errors, rotation round trips, zoom toward the cursor, and frames.

use modmul::canvas::{normalize_u8_to_1, Canvas};
use modmul::shape::CanvasError;

fn square_canvas() -> Canvas {
    Canvas::new(1000, 1000).unwrap()
}

#[test]
fn new_canvas_defaults() {
    let c = square_canvas();
    assert_eq!(c.shape.points, 500);
    assert_eq!(c.shape.mul, 72);
    assert_eq!(c.shape.r, 920_000);
    assert_eq!((c.shape.pos.x, c.shape.pos.y), (0, 0));
    assert_eq!(c.shape.rotation, 0);
    assert_eq!(c.shape.outline_segments, 1440);
    assert!(c.shape.widescreen);
    assert_eq!((c.shape.color.r, c.shape.color.g, c.shape.color.b), (250, 250, 250));
    assert_eq!((c.bg.r, c.bg.g, c.bg.b), (24, 24, 24));
    assert!(!c.enable_outline);
}

#[test]
fn new_canvas_rejects_bad_dimensions() {
    assert_eq!(Canvas::new(0, 100).err().unwrap(), CanvasError::InvalidDimensions);
    assert_eq!(Canvas::new(100, 0).err().unwrap(), CanvasError::InvalidDimensions);
}

#[test]
fn adjust_view_recomputes_widescreen() {
    let mut c = square_canvas();
    c.adjust_view(800, 600).unwrap();
    assert_eq!((c.shape.dimensions.x, c.shape.dimensions.y), (800, 600));
    assert!(c.shape.widescreen);
    c.adjust_view(600, 800).unwrap();
    assert!(!c.shape.widescreen);
    assert_eq!(c.adjust_view(0, 800).err().unwrap(), CanvasError::InvalidDimensions);
    // The failed call changed nothing.
    assert_eq!((c.shape.dimensions.x, c.shape.dimensions.y), (600, 800));
}

#[test]
fn adjust_view_is_idempotent() {
    let mut c = square_canvas();
    c.adjust_view(800, 600).unwrap();
    let shape_once = c.shape;
    c.adjust_view(800, 600).unwrap();
    assert_eq!(c.shape, shape_once);
}

#[test]
fn outline_segments_follow_point_count() {
    // set_points(2000) gives 2000 segments; set_points(100) falls back to the
    // 1440 floor.
    let mut c = square_canvas();
    c.set_points(2000).unwrap();
    assert_eq!(c.shape.outline_segments, 2000);
    c.set_points(100).unwrap();
    assert_eq!(c.shape.outline_segments, 1440);
    c.set_points(1441).unwrap();
    assert_eq!(c.shape.outline_segments, 1441);
    c.set_points(1440).unwrap();
    assert_eq!(c.shape.outline_segments, 1440);
}

#[test]
fn set_points_rejects_zero() {
    let mut c = square_canvas();
    assert_eq!(c.set_points(0).err().unwrap(), CanvasError::InvalidPointCount);
    assert_eq!(c.shape.points, 500);
}

#[test]
fn set_rotation_converts_degrees_to_radians() {
    // 45 degrees is pi/4: 785398 millionths, whatever was stored before.
    let mut c = square_canvas();
    c.set_rotation(45_000_000);
    assert_eq!(c.shape.rotation, 785_398);
    c.set_rotation(90_000_000);
    assert_eq!(c.shape.rotation, 1_570_796);
    c.set_rotation(45_000_000);
    assert_eq!(c.shape.rotation, 785_398);
}

#[test]
fn set_rotation_wraps_into_one_turn() {
    let mut c = square_canvas();
    c.set_rotation(405_000_000);
    assert_eq!(c.shape.rotation, 785_398);
    c.set_rotation(-90_000_000);
    assert_eq!(c.shape.rotation, 4_712_388);
    c.set_rotation(360_000_000);
    assert_eq!(c.shape.rotation, 0);
}

#[test]
fn reset_restores_view_but_keeps_shape_parameters() {
    let mut c = square_canvas();
    c.set_points(77).unwrap();
    c.set_multiplier(5);
    c.set_rotation(30_000_000);
    c.move_shape(1_000, -2_000).unwrap();
    c.add_to_r(80_000, 0, 0).unwrap();
    c.reset();
    assert_eq!(c.shape.r, 920_000);
    assert_eq!((c.shape.pos.x, c.shape.pos.y), (0, 0));
    assert_eq!(c.shape.rotation, 0);
    assert_eq!(c.shape.points, 77);
    assert_eq!(c.shape.mul, 5);
}

#[test]
fn move_shape_pans_additively() {
    let mut c = square_canvas();
    c.move_shape(10_000, -20_000).unwrap();
    c.move_shape(5_000, 3_000).unwrap();
    assert_eq!((c.shape.pos.x, c.shape.pos.y), (15_000, -17_000));
}

#[test]
fn move_shape_rejects_leaving_range() {
    let mut c = square_canvas();
    c.move_shape(1_000_000_000_000, 0).unwrap();
    assert_eq!(c.move_shape(1, 0).err().unwrap(), CanvasError::PositionOutOfRange);
    assert_eq!(c.shape.pos.x, 1_000_000_000_000);
}

#[test]
fn zoom_at_center_only_scales_radius() {
    let mut c = square_canvas();
    c.add_to_r(80_000, 0, 0).unwrap();
    assert_eq!(c.get_r(), 1_000_000);
    assert_eq!((c.shape.pos.x, c.shape.pos.y), (0, 0));
}

#[test]
fn zoom_keeps_cursor_point_exactly_when_divisible() {
    // Doubling the radius from 920000 with the cursor at 460000 scales the
    // distance exactly: the center backs off to -460000, and the cursor's
    // offset scales precisely with the radius.
    let mut c = square_canvas();
    c.add_to_r(920_000, 460_000, 0).unwrap();
    assert_eq!(c.get_r(), 1_840_000);
    assert_eq!(c.shape.pos.x, -460_000);
    assert_eq!(c.shape.pos.y, 0);
    let lhs = (460_000i128 - c.shape.pos.x as i128) * 920_000;
    let rhs = 460_000i128 * 1_840_000;
    assert_eq!(lhs, rhs);
}

#[test]
fn zoom_in_keeps_cursor_point_within_tolerance() {
    // Zooming in toward a cursor right of and below the center: the point of
    // the local frame under the cursor projects back within rounding (one
    // millionth scaled by the old radius).
    let mut c = square_canvas();
    let (r0, r1) = (920_000i128, 1_000_000i128);
    let (cx, cy) = (400_000i64, 300_000i64);
    c.add_to_r((r1 - r0) as i64, cx, cy).unwrap();
    assert_eq!(c.get_r() as i128, r1);
    let lhs_x = (cx as i128 - c.shape.pos.x as i128) * r0;
    let rhs_x = cx as i128 * r1;
    assert!((lhs_x - rhs_x).abs() <= r0, "x drift: {lhs_x} vs {rhs_x}");
    let lhs_y = (cy as i128 - c.shape.pos.y as i128) * r0;
    let rhs_y = cy as i128 * r1;
    assert!((lhs_y - rhs_y).abs() <= r0, "y drift: {lhs_y} vs {rhs_y}");
}

#[test]
fn zoom_out_keeps_cursor_point_within_tolerance() {
    // Zooming out with the cursor left of and above the center.
    let mut c = square_canvas();
    let (r0, r1) = (920_000i128, 500_000i128);
    let (cx, cy) = (-400_000i64, -200_000i64);
    c.add_to_r((r1 - r0) as i64, cx, cy).unwrap();
    assert_eq!(c.get_r() as i128, r1);
    assert_eq!(c.shape.pos.x, -182_609);
    assert_eq!(c.shape.pos.y, -91_305);
    let lhs_x = (cx as i128 - c.shape.pos.x as i128) * r0;
    let rhs_x = cx as i128 * r1;
    assert!((lhs_x - rhs_x).abs() <= r0, "x drift: {lhs_x} vs {rhs_x}");
    let lhs_y = (cy as i128 - c.shape.pos.y as i128) * r0;
    let rhs_y = cy as i128 * r1;
    assert!((lhs_y - rhs_y).abs() <= r0, "y drift: {lhs_y} vs {rhs_y}");
}

#[test]
fn zoom_rejects_nonpositive_radius() {
    let mut c = square_canvas();
    assert_eq!(c.add_to_r(-920_000, 0, 0).err().unwrap(), CanvasError::NonPositiveRadius);
    assert_eq!(c.get_r(), 920_000);
}

#[test]
fn zoom_rejects_radius_beyond_limit() {
    let mut c = square_canvas();
    assert_eq!(
        c.add_to_r(1_000_000_000_000, 0, 0).err().unwrap(),
        CanvasError::RadiusOutOfRange
    );
    assert_eq!(c.get_r(), 920_000);
}

#[test]
fn zoom_rejects_center_leaving_range() {
    let mut c = square_canvas();
    c.move_shape(1_000_000_000_000, 0).unwrap();
    let res = c.add_to_r(999_999_080_000, 0, 0);
    assert_eq!(res.err().unwrap(), CanvasError::PositionOutOfRange);
    assert_eq!(c.get_r(), 920_000);
    assert_eq!(c.shape.pos.x, 1_000_000_000_000);
}

#[test]
fn channel_normalization() {
    assert_eq!(normalize_u8_to_1(0), 0);
    assert_eq!(normalize_u8_to_1(255), 1_000_000);
    assert_eq!(normalize_u8_to_1(24), 94_117);
    assert_eq!(normalize_u8_to_1(250), 980_392);
}

#[test]
fn clear_and_fg_color_are_normalized() {
    let mut c = square_canvas();
    assert_eq!(c.clear(), (94_117, 94_117, 94_117));
    assert_eq!(c.update_fg_color(), (980_392, 980_392, 980_392));
    c.shape.set_color(255, 0, 24);
    assert_eq!(c.update_fg_color(), (1_000_000, 0, 94_117));
}

#[test]
fn frame_contains_buffers_in_draw_order() {
    let mut c = square_canvas();
    let frame = c.draw();
    assert!(frame.outline.is_none());
    assert_eq!(frame.lines.len(), 2000);
    assert_eq!(frame.points.len(), 2000 / 2);
    assert_eq!(frame.point_size, 2_000_000);
    assert_eq!(frame.fg, (980_392, 980_392, 980_392));
    assert_eq!(frame.bg, (94_117, 94_117, 94_117));
    c.set_enable_outline(true);
    let frame = c.draw();
    let (outer, inner) = frame.outline.unwrap();
    assert_eq!(outer.len(), 2 * 1442);
    assert_eq!(inner.len(), 2 * 1442);
}
