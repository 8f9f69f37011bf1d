//! Derived geometry: the position of every circle point, the chord partner
//! `(i * mul) mod points`, and the flat vertex buffers a renderer consumes.
//!
//! The renderer's coordinate space is the square `[-1, 1] x [-1, 1]`
//! (`[-SCALE, SCALE]` in fixed point) whatever the physical viewport, so the
//! axis that the viewport stretches is scaled back by the inverse aspect
//! ratio to keep the circle visually circular.

use vstd::prelude::*;

verus! {

use crate::fixed::{
    fp_mul, lemma_tdiv_bound, tdiv, HALF_PI, MAX_POINTS, P_LIMIT, R_LIMIT, SCALE, TWO_PI,
};
use crate::shape::{Point, Shape};
use crate::trig::{cos_fixed, cos_of, lemma_quarter_turns, sin_fixed, sin_of};
use vstd::arithmetic::div_mod::{
    lemma_div_is_ordered,
    lemma_div_multiples_vanish,
    lemma_div_nonincreasing,
    lemma_div_pos_is_pos,
    lemma_mod_add_multiples_vanish,
    lemma_small_mod,
};
use vstd::arithmetic::mul::lemma_mul_is_commutative;

/// Aspect factor applied to the x axis: on a widescreen viewport the x axis
/// is the stretched one and is scaled by height/width, else it is left alone.
pub open spec fn aspect_x(s: Shape) -> int {
    if s.widescreen {
        (s.dimensions.y * SCALE) / (s.dimensions.x as int)
    } else {
        SCALE as int
    }
}

/// Aspect factor applied to the y axis (see [`aspect_x`]).
pub open spec fn aspect_y(s: Shape) -> int {
    if s.widescreen {
        SCALE as int
    } else {
        (s.dimensions.x * SCALE) / (s.dimensions.y as int)
    }
}

/// Both aspect factors shrink: the corrected axis is the longer one, so the
/// factor never exceeds one.
pub proof fn lemma_aspect_range(s: Shape)
    requires
        s.wf(),
    ensures
        0 <= aspect_x(s) <= SCALE,
        0 <= aspect_y(s) <= SCALE,
{
    if s.widescreen {
        lemma_div_pos_is_pos(s.dimensions.y * SCALE, s.dimensions.x as int);
        lemma_div_is_ordered(s.dimensions.y * SCALE, s.dimensions.x * SCALE, s.dimensions.x as int);
        lemma_mul_is_commutative(s.dimensions.x as int, SCALE as int);
        lemma_div_multiples_vanish(SCALE as int, s.dimensions.x as int);
    } else {
        lemma_div_pos_is_pos(s.dimensions.x * SCALE, s.dimensions.y as int);
        lemma_div_is_ordered(s.dimensions.x * SCALE, s.dimensions.y * SCALE, s.dimensions.y as int);
        lemma_mul_is_commutative(s.dimensions.y as int, SCALE as int);
        lemma_div_multiples_vanish(SCALE as int, s.dimensions.y as int);
    }
}

/// The two aspect factors of the current viewport.
pub fn aspect_factors(shape: &Shape) -> (a: (i64, i64))
    requires
        shape.wf(),
    ensures
        a.0 == aspect_x(*shape),
        a.1 == aspect_y(*shape),
        0 <= a.0 <= SCALE,
        0 <= a.1 <= SCALE,
{
    proof {
        lemma_aspect_range(*shape);
    }
    if shape.widescreen {
        ((shape.dimensions.y * SCALE) / shape.dimensions.x, SCALE)
    } else {
        (SCALE, (shape.dimensions.x * SCALE) / shape.dimensions.y)
    }
}

/// The angle of point `i` under rotation `rot`: `i` turn fractions from the
/// top of the circle (the `HALF_PI` term puts point 0 at the top), wrapped
/// into `[0, TWO_PI)`.
pub open spec fn theta_with(s: Shape, i: int, rot: int) -> int {
    ((i * TWO_PI) / (s.points as int) + HALF_PI + rot) % (TWO_PI as int)
}

/// The angle of point `i` under the shape's own rotation.
pub open spec fn theta_of(s: Shape, i: int) -> int {
    theta_with(s, i, s.rotation as int)
}

/// The x coordinate of point `i` under rotation `rot`: radius times cosine,
/// aspect-corrected, then offset by the shape's position.
pub open spec fn point_x_with(s: Shape, i: int, rot: int) -> int {
    tdiv(tdiv(s.r * cos_of(theta_with(s, i, rot)), SCALE as int) * aspect_x(s), SCALE as int)
        + s.pos.x
}

/// The y coordinate of point `i` under rotation `rot` (see [`point_x_with`]).
pub open spec fn point_y_with(s: Shape, i: int, rot: int) -> int {
    tdiv(tdiv(s.r * sin_of(theta_with(s, i, rot)), SCALE as int) * aspect_y(s), SCALE as int)
        + s.pos.y
}

/// The x coordinate of point `i` of the shape.
pub open spec fn point_x_of(s: Shape, i: int) -> int {
    point_x_with(s, i, s.rotation as int)
}

/// The y coordinate of point `i` of the shape.
pub open spec fn point_y_of(s: Shape, i: int) -> int {
    point_y_with(s, i, s.rotation as int)
}

/// The chord partner of point `i`: `(i * mul) mod points`.
pub open spec fn match_of(s: Shape, i: int) -> int {
    (i * s.mul) % (s.points as int)
}

/// Fixed-point multiply of a magnitude-bounded scalar by a factor of at most
/// one unit; the bound carries to the result.
fn scaled_mul(a: i64, b: i64, m: i64) -> (r: i64)
    requires
        -m <= a <= m,
        -SCALE <= b <= SCALE,
        0 <= m <= R_LIMIT + SCALE,
    ensures
        r == tdiv(a * b, SCALE as int),
        -m <= r <= m,
{
    proof {
        assert(-(m * SCALE) <= a * b <= m * SCALE) by (nonlinear_arith)
            requires
                -m <= a <= m,
                -SCALE <= b <= SCALE,
                m >= 0,
        ;
        lemma_tdiv_bound(a * b, SCALE as int, m as int);
    }
    fp_mul(a, b)
}

/// The wrapped angle of point `i`.
fn theta_fixed(shape: &Shape, i: u32) -> (t: i64)
    requires
        shape.wf(),
        i < shape.points,
    ensures
        t == theta_of(*shape, i as int),
        0 <= t < TWO_PI,
{
    proof {
        assert(0 <= (i as int) * (TWO_PI as int) <= MAX_POINTS * 6_283_184) by (nonlinear_arith)
            requires
                0 <= i <= MAX_POINTS,
                TWO_PI == 6_283_184,
        ;
    }
    let wide: u64 = (i as u64) * (TWO_PI as u64);
    let step: u64 = wide / (shape.points as u64);
    proof {
        lemma_div_nonincreasing(wide as int, shape.points as int);
    }
    let sum: u64 = step + (HALF_PI as u64) + (shape.rotation as u64);
    let t: u64 = sum % (TWO_PI as u64);
    t as i64
}

/// The position of point `i` in normalized, aspect-corrected space.
pub fn point_position(shape: &Shape, i: u32) -> (p: Point)
    requires
        shape.wf(),
        i < shape.points,
    ensures
        p.x == point_x_of(*shape, i as int),
        p.y == point_y_of(*shape, i as int),
        -(R_LIMIT + P_LIMIT) <= p.x <= R_LIMIT + P_LIMIT,
        -(R_LIMIT + P_LIMIT) <= p.y <= R_LIMIT + P_LIMIT,
{
    let t: i64 = theta_fixed(shape, i);
    let c: i64 = cos_fixed(t);
    let sn: i64 = sin_fixed(t);
    let (ax, ay): (i64, i64) = aspect_factors(shape);
    let rx: i64 = scaled_mul(shape.r, c, R_LIMIT);
    let ry: i64 = scaled_mul(shape.r, sn, R_LIMIT);
    let x0: i64 = scaled_mul(rx, ax, R_LIMIT);
    let y0: i64 = scaled_mul(ry, ay, R_LIMIT);
    Point { x: x0 + shape.pos.x, y: y0 + shape.pos.y }
}

/// The chord partner of point `i`, computed in arithmetic wide enough never
/// to overflow; the result always lies in `[0, points)`.
pub fn match_index(shape: &Shape, i: u32) -> (m: u32)
    requires
        shape.wf(),
        i < shape.points,
    ensures
        m == match_of(*shape, i as int),
        m < shape.points,
{
    proof {
        assert(0 <= (i as int) * (shape.mul as int) <= MAX_POINTS * 0xffff_ffffi64)
            by (nonlinear_arith)
            requires
                0 <= i <= MAX_POINTS,
                0 <= shape.mul <= 0xffff_ffffu64,
        ;
    }
    let wide: u64 = (i as u64) * (shape.mul as u64);
    let m: u64 = wide % (shape.points as u64);
    m as u32
}

/// Interleaved `(x, y)` coordinates of every point, in index order:
/// `2 * points` scalars.
pub fn points_buffer(shape: &Shape) -> (buf: Vec<i64>)
    requires
        shape.wf(),
    ensures
        buf.len() == 2 * shape.points,
        forall|j: int|
            0 <= j < shape.points ==> buf[2 * j] == point_x_of(*shape, j) && buf[2 * j + 1]
                == point_y_of(*shape, j),
{
    let mut buf: Vec<i64> = Vec::new();
    let mut idx: u32 = 0;
    while idx < shape.points
        invariant
            shape.wf(),
            idx <= shape.points,
            buf.len() == 2 * idx,
            forall|j: int|
                0 <= j < idx ==> buf[2 * j] == point_x_of(*shape, j) && buf[2 * j + 1]
                    == point_y_of(*shape, j),
        decreases shape.points - idx,
    {
        let p: Point = point_position(shape, idx);
        buf.push(p.x);
        buf.push(p.y);
        idx = idx + 1;
    }
    buf
}

/// The four scalars at chunk `j` of a chord buffer are the positions of
/// point `j` and of its chord partner.
pub open spec fn chord_at(s: Shape, buf: Seq<i64>, j: int) -> bool {
    &&& buf[4 * j] == point_x_of(s, j)
    &&& buf[4 * j + 1] == point_y_of(s, j)
    &&& buf[4 * j + 2] == point_x_of(s, match_of(s, j))
    &&& buf[4 * j + 3] == point_y_of(s, match_of(s, j))
}

/// Chord endpoint pairs for every point, in index order: for each `i` the
/// positions of point `i` and of its chord partner, `4 * points` scalars in
/// all. This is the modular-multiplication pattern itself.
pub fn lines_buffer(shape: &Shape) -> (buf: Vec<i64>)
    requires
        shape.wf(),
    ensures
        buf.len() == 4 * shape.points,
        forall|j: int| 0 <= j < shape.points ==> #[trigger] chord_at(*shape, buf@, j),
{
    let mut buf: Vec<i64> = Vec::new();
    let mut idx: u32 = 0;
    while idx < shape.points
        invariant
            shape.wf(),
            idx <= shape.points,
            buf.len() == 4 * idx,
            forall|j: int| 0 <= j < idx ==> #[trigger] chord_at(*shape, buf@, j),
        decreases shape.points - idx,
    {
        let ghost prev: Seq<i64> = buf@;
        let p: Point = point_position(shape, idx);
        let m: u32 = match_index(shape, idx);
        let q: Point = point_position(shape, m);
        buf.push(p.x);
        buf.push(p.y);
        buf.push(q.x);
        buf.push(q.y);
        proof {
            assert forall|j: int| 0 <= j < idx as int + 1 implies #[trigger] chord_at(
                *shape,
                buf@,
                j,
            ) by {
                if j < idx as int {
                    assert(chord_at(*shape, prev, j));
                    assert(buf@[4 * j] == prev[4 * j]);
                    assert(buf@[4 * j + 1] == prev[4 * j + 1]);
                    assert(buf@[4 * j + 2] == prev[4 * j + 2]);
                    assert(buf@[4 * j + 3] == prev[4 * j + 3]);
                } else {
                    assert(buf@[4 * j] == p.x);
                    assert(buf@[4 * j + 1] == p.y);
                    assert(buf@[4 * j + 2] == q.x);
                    assert(buf@[4 * j + 3] == q.y);
                }
            }
        }
        idx = idx + 1;
    }
    buf
}

/// The angle of perimeter vertex `j` of an outline fan: `j` of `segments`
/// equal angular steps, the last one wrapping back onto the first.
pub open spec fn ring_phi(segments: int, j: int) -> int {
    ((j * TWO_PI) / segments) % (TWO_PI as int)
}

/// The x coordinate of perimeter vertex `j` of an outline fan of the given
/// radius, aspect-corrected and offset like every point position.
pub open spec fn ring_x(s: Shape, radius: int, j: int) -> int {
    tdiv(
        tdiv(radius * cos_of(ring_phi(s.outline_segments as int, j)), SCALE as int) * aspect_x(s),
        SCALE as int,
    ) + s.pos.x
}

/// The y coordinate of perimeter vertex `j` of an outline fan (see
/// [`ring_x`]).
pub open spec fn ring_y(s: Shape, radius: int, j: int) -> int {
    tdiv(
        tdiv(radius * sin_of(ring_phi(s.outline_segments as int, j)), SCALE as int) * aspect_y(s),
        SCALE as int,
    ) + s.pos.y
}

/// The outer rim of the outline ring: half the outline width beyond the
/// radius.
pub open spec fn outer_radius(s: Shape) -> int {
    s.r + tdiv(s.outline_width as int, 2)
}

/// The inner rim of the outline ring: half the outline width inside the
/// radius.
pub open spec fn inner_radius(s: Shape) -> int {
    s.r - tdiv(s.outline_width as int, 2)
}

/// `fan` is a triangle fan for a circle of the given radius: the center
/// vertex, then `outline_segments + 1` perimeter vertices in equal angular
/// steps, the last closing onto the first — `2 * (outline_segments + 2)`
/// scalars.
pub open spec fn is_ring_fan(s: Shape, radius: int, fan: Seq<i64>) -> bool {
    &&& fan.len() == 2 * (s.outline_segments + 2)
    &&& fan[0] == s.pos.x
    &&& fan[1] == s.pos.y
    &&& forall|j: int|
        0 <= j <= s.outline_segments ==> fan[2 * j + 2] == ring_x(s, radius, j) && fan[2 * j + 3]
            == ring_y(s, radius, j)
}

/// One triangle fan of the outline ring.
fn ring_fan(shape: &Shape, radius: i64) -> (fan: Vec<i64>)
    requires
        shape.wf(),
        -(R_LIMIT + SCALE) <= radius <= R_LIMIT + SCALE,
    ensures
        is_ring_fan(*shape, radius as int, fan@),
{
    let segments: u32 = shape.outline_segments;
    let mut fan: Vec<i64> = Vec::new();
    fan.push(shape.pos.x);
    fan.push(shape.pos.y);
    let (ax, ay): (i64, i64) = aspect_factors(shape);
    let mut j: u32 = 0;
    while j <= segments
        invariant
            shape.wf(),
            segments == shape.outline_segments,
            0 <= ax <= SCALE,
            0 <= ay <= SCALE,
            ax == aspect_x(*shape),
            ay == aspect_y(*shape),
            -(R_LIMIT + SCALE) <= radius <= R_LIMIT + SCALE,
            j <= segments + 1,
            fan.len() == 2 * j + 2,
            fan[0] == shape.pos.x,
            fan[1] == shape.pos.y,
            forall|k: int|
                0 <= k < j ==> fan[2 * k + 2] == ring_x(*shape, radius as int, k) && fan[2 * k + 3]
                    == ring_y(*shape, radius as int, k),
        decreases segments + 1 - j,
    {
        proof {
            assert(0 <= (j as int) * (TWO_PI as int) <= (MAX_POINTS + 1) * 6_283_184)
                by (nonlinear_arith)
                requires
                    0 <= j <= MAX_POINTS + 1,
                    TWO_PI == 6_283_184,
            ;
        }
        let wide: u64 = (j as u64) * (TWO_PI as u64);
        let step: u64 = wide / (segments as u64);
        proof {
            lemma_div_nonincreasing(wide as int, segments as int);
        }
        let phi: i64 = (step % (TWO_PI as u64)) as i64;
        let c: i64 = cos_fixed(phi);
        let sn: i64 = sin_fixed(phi);
        let rx: i64 = scaled_mul(radius, c, R_LIMIT + SCALE);
        let ry: i64 = scaled_mul(radius, sn, R_LIMIT + SCALE);
        let x0: i64 = scaled_mul(rx, ax, R_LIMIT + SCALE);
        let y0: i64 = scaled_mul(ry, ay, R_LIMIT + SCALE);
        fan.push(x0 + shape.pos.x);
        fan.push(y0 + shape.pos.y);
        j = j + 1;
    }
    fan
}

/// The outline ring as two triangle fans over the same tessellation, the
/// outer rim first. The consumer draws the outer fan in the foreground color
/// and then overdraws the inner fan in the background color, so that only the
/// ring between the two rims stays visible; the order matters.
pub fn outline_ring(shape: &Shape) -> (fans: (Vec<i64>, Vec<i64>))
    requires
        shape.wf(),
    ensures
        is_ring_fan(*shape, outer_radius(*shape), fans.0@),
        is_ring_fan(*shape, inner_radius(*shape), fans.1@),
{
    let half: i64 = shape.outline_width / 2;
    let outer: Vec<i64> = ring_fan(shape, shape.r + half);
    let inner: Vec<i64> = ring_fan(shape, shape.r - half);
    (outer, inner)
}

/// Shifting the rotation by one full turn moves no point: the point position
/// is periodic in the rotation with period `TWO_PI`.
pub proof fn lemma_point_position_periodic(s: Shape, i: int, rot: int)
    ensures
        point_x_with(s, i, rot + TWO_PI) == point_x_with(s, i, rot),
        point_y_with(s, i, rot + TWO_PI) == point_y_with(s, i, rot),
{
    let base = (i * TWO_PI) / (s.points as int) + HALF_PI + rot;
    lemma_mod_add_multiples_vanish(base, TWO_PI as int);
    assert(theta_with(s, i, rot + TWO_PI) == theta_with(s, i, rot));
}

/// With no rotation and no offset, point 0 sits at the top of the circle:
/// `x` is exactly zero and `y` is the radius scaled by the y aspect factor —
/// exactly the radius on a square viewport.
pub proof fn lemma_point_zero_at_top(s: Shape)
    requires
        s.wf(),
        s.rotation == 0,
        s.pos.x == 0,
        s.pos.y == 0,
    ensures
        point_x_of(s, 0) == 0,
        point_y_of(s, 0) == tdiv(s.r * aspect_y(s), SCALE as int),
        0 <= point_y_of(s, 0) <= s.r,
        s.dimensions.x == s.dimensions.y ==> point_y_of(s, 0) == s.r,
{
    lemma_quarter_turns();
    lemma_aspect_range(s);
    assert((0int * TWO_PI) / (s.points as int) == 0) by {
        assert(0int * TWO_PI == 0);
        assert(0int / (s.points as int) == 0) by {
            lemma_small_mod(0nat, s.points as nat);
            lemma_div_pos_is_pos(0, s.points as int);
            lemma_div_is_ordered(0, 0, s.points as int);
            assert(s.points * 0 == 0) by (nonlinear_arith);
            lemma_div_multiples_vanish(0, s.points as int);
        }
    }
    lemma_small_mod(HALF_PI as nat, TWO_PI as nat);
    assert(theta_of(s, 0) == HALF_PI as int);
    // x: the cosine at the top is exactly zero, and zero stays zero through
    // the whole chain.
    assert(s.r * 0 == 0) by (nonlinear_arith);
    assert(tdiv(0, SCALE as int) == 0) by {
        lemma_div_multiples_vanish(0, SCALE as int);
        assert((SCALE as int) * 0 == 0) by (nonlinear_arith);
    }
    assert(0 * aspect_x(s) == 0) by (nonlinear_arith);
    // y: the sine at the top is exactly one unit, so the first fixed-point
    // multiply returns the radius unchanged.
    assert(tdiv(s.r * (SCALE as int), SCALE as int) == s.r) by {
        lemma_mul_is_commutative(s.r as int, SCALE as int);
        lemma_div_multiples_vanish(s.r as int, SCALE as int);
        lemma_div_pos_is_pos(s.r * (SCALE as int), SCALE as int);
    }
    assert(0 <= tdiv(s.r * aspect_y(s), SCALE as int) <= s.r) by {
        assert(0 <= s.r * aspect_y(s) <= s.r * (SCALE as int)) by (nonlinear_arith)
            requires
                0 < s.r,
                0 <= aspect_y(s) <= SCALE,
        ;
        lemma_div_pos_is_pos(s.r * aspect_y(s), SCALE as int);
        lemma_div_is_ordered(s.r * aspect_y(s), s.r * (SCALE as int), SCALE as int);
        lemma_mul_is_commutative(s.r as int, SCALE as int);
        lemma_div_multiples_vanish(s.r as int, SCALE as int);
    }
    if s.dimensions.x == s.dimensions.y {
        assert(aspect_y(s) == SCALE as int);
    }
}

} // verus!
