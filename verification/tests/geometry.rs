//! Geometry checks: chord indices, buffer shapes, point placement, the
//! outline ring, and the accuracy of the fixed-point trigonometry.

use modmul::canvas::Canvas;
use modmul::fixed::{SCALE, TWO_PI};
use modmul::geometry::{lines_buffer, match_index, point_position, points_buffer, outline_ring};
use modmul::trig::{cos_fixed, sin_fixed};

fn square_canvas() -> Canvas {
    Canvas::new(1000, 1000).unwrap()
}

#[test]
fn match_index_scenario() {
    // N = 500, M = 72: point 10 chords to (10 * 72) mod 500 = 220.
    let c = square_canvas();
    assert_eq!(match_index(&c.shape, 10), 220);
    assert_eq!(match_index(&c.shape, 0), 0);
}

#[test]
fn match_index_stays_in_range() {
    let mut c = square_canvas();
    c.set_points(7).unwrap();
    c.set_multiplier(3);
    for i in 0..7u32 {
        let m = match_index(&c.shape, i);
        assert_eq!(m, (i * 3) % 7);
        assert!(m < 7);
    }
    // A multiplier far beyond the point count still lands in range.
    c.set_multiplier(1_000_003);
    for i in 0..7u32 {
        let m = match_index(&c.shape, i);
        assert_eq!(m as u64, (i as u64 * 1_000_003) % 7);
        assert!(m < 7);
    }
    // Multiplier zero sends every point to point zero.
    c.set_multiplier(0);
    for i in 0..7u32 {
        assert_eq!(match_index(&c.shape, i), 0);
    }
}

#[test]
fn match_index_wide_arithmetic() {
    // Indices and multipliers up to a million must not overflow.
    let mut c = square_canvas();
    c.set_points(1_048_576).unwrap();
    c.set_multiplier(1_048_576);
    let m = match_index(&c.shape, 1_048_575);
    assert_eq!(m as u64, (1_048_575u64 * 1_048_576) % 1_048_576);
}

#[test]
fn buffer_lengths() {
    // points_buffer holds 2 scalars per point, lines_buffer 4.
    let mut c = square_canvas();
    assert_eq!(points_buffer(&c.shape).len(), 1000);
    assert_eq!(lines_buffer(&c.shape).len(), 2000);
    c.set_points(2000).unwrap();
    assert_eq!(points_buffer(&c.shape).len(), 4000);
    assert_eq!(lines_buffer(&c.shape).len(), 8000);
    c.set_points(1).unwrap();
    assert_eq!(points_buffer(&c.shape).len(), 2);
    assert_eq!(lines_buffer(&c.shape).len(), 4);
}

#[test]
fn point_zero_at_top_of_circle() {
    // Square viewport, no rotation, no offset: point 0 sits at (0, radius).
    let c = square_canvas();
    let p = point_position(&c.shape, 0);
    assert_eq!(p.x, 0);
    assert_eq!(p.y, 920_000);
    let buf = points_buffer(&c.shape);
    assert_eq!(buf[0], 0);
    assert_eq!(buf[1], 920_000);
}

#[test]
fn lines_buffer_pairs_points_with_chord_partners() {
    let c = square_canvas();
    let lines = lines_buffer(&c.shape);
    let p10 = point_position(&c.shape, 10);
    let p220 = point_position(&c.shape, 220);
    assert_eq!(lines[40], p10.x);
    assert_eq!(lines[41], p10.y);
    assert_eq!(lines[42], p220.x);
    assert_eq!(lines[43], p220.y);
}

#[test]
fn rotation_full_turn_moves_no_point() {
    // The position is periodic in the rotation with period 2 pi: 45 and 405
    // degrees give identical buffers.
    let mut c = square_canvas();
    c.set_rotation(45_000_000);
    let before = points_buffer(&c.shape);
    let rot_before = c.shape.rotation;
    c.set_rotation(405_000_000);
    assert_eq!(c.shape.rotation, rot_before);
    assert_eq!(points_buffer(&c.shape), before);
}

#[test]
fn aspect_correction_keeps_circle_round() {
    // On a 2000 x 1000 viewport the x axis is squeezed by a half; point 0
    // stays at the top, and the point a quarter turn later (index 125 of 500,
    // clockwise from the top) has its x extent halved.
    let c = Canvas::new(2000, 1000).unwrap();
    let top = point_position(&c.shape, 0);
    assert_eq!(top.x, 0);
    assert_eq!(top.y, 920_000);
    let quarter = point_position(&c.shape, 125);
    assert!(quarter.y.abs() < 2_000);
    assert!((quarter.x.abs() - 460_000).abs() < 2_000);
}

#[test]
fn outline_ring_fans() {
    // Each fan holds the center plus segments + 1 perimeter vertices; the
    // first perimeter vertex sits at angle 0 (the right of the circle), at
    // the rim radius: 920000 +- 2500 for the default width of 5000.
    let c = square_canvas();
    let (outer, inner) = outline_ring(&c.shape);
    assert_eq!(outer.len(), 2 * (1440 + 2));
    assert_eq!(inner.len(), 2 * (1440 + 2));
    assert_eq!(&outer[0..2], &[0, 0]);
    assert_eq!(&inner[0..2], &[0, 0]);
    assert_eq!(outer[2], 922_500);
    assert_eq!(outer[3], 0);
    assert_eq!(inner[2], 917_500);
    assert_eq!(inner[3], 0);
    // The closing vertex repeats the first perimeter vertex.
    assert_eq!(outer[outer.len() - 2], outer[2]);
    assert_eq!(outer[outer.len() - 1], outer[3]);
}

#[test]
fn outline_ring_follows_point_count() {
    let mut c = square_canvas();
    c.set_points(2000).unwrap();
    let (outer, _) = outline_ring(&c.shape);
    assert_eq!(outer.len(), 2 * (2000 + 2));
}

#[test]
fn fixed_point_sine_tracks_real_sine() {
    // The Bhaskara approximation stays within two thousandths of the real
    // sine and cosine over the whole turn.
    let mut x: i64 = 0;
    while x < TWO_PI {
        let s = sin_fixed(x);
        let real = ((x as f64) / 1e6).sin() * 1e6;
        assert!(((s as f64) - real).abs() < 2_000.0, "sin at {x}: {s} vs {real}");
        let co = cos_fixed(x);
        let real_c = ((x as f64) / 1e6).cos() * 1e6;
        assert!(((co as f64) - real_c).abs() < 2_000.0, "cos at {x}: {co} vs {real_c}");
        x += 10_000;
    }
}

#[test]
fn fixed_point_sine_exact_at_quarter_turns() {
    assert_eq!(sin_fixed(0), 0);
    assert_eq!(sin_fixed(1_570_796), SCALE);
    assert_eq!(sin_fixed(3_141_592), 0);
    assert_eq!(sin_fixed(4_712_388), -SCALE);
    assert_eq!(cos_fixed(0), SCALE);
    assert_eq!(cos_fixed(1_570_796), 0);
    assert_eq!(cos_fixed(3_141_592), -SCALE);
    assert_eq!(cos_fixed(4_712_388), 0);
}

#[test]
fn many_points_compute_quickly_and_deterministically() {
    // The buffers are recomputed on every draw; a million points must stay
    // exact and repeatable.
    let mut c = square_canvas();
    c.set_points(1_000_000).unwrap();
    let a = points_buffer(&c.shape);
    let b = points_buffer(&c.shape);
    assert_eq!(a.len(), 2_000_000);
    assert_eq!(a, b);
}
