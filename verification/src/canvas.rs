//! The render-session controller: one shape, a background color and an
//! outline flag, mutated in place by every user interaction. Mutation and
//! rendering are separate steps: after a mutator succeeds the host calls
//! [`Canvas::draw`] and hands the returned buffers to its renderer.

use vstd::prelude::*;

verus! {

use crate::fixed::{lemma_tdiv_bound, lemma_tdiv_shrinks, mul_tdiv, tdiv, DIM_LIMIT, MAX_POINTS, PI, P_LIMIT, R_LIMIT, SCALE, TWO_PI};
use crate::geometry::{
    chord_at, inner_radius, is_ring_fan, lines_buffer, outer_radius, outline_ring, point_x_of,
    point_y_of, points_buffer,
};
use crate::shape::{segment_count, CanvasError, Color, Point, Shape};
use vstd::arithmetic::div_mod::{lemma_fundamental_div_mod, lemma_fundamental_div_mod_converse_mod};
use vstd::arithmetic::mul::lemma_mul_is_commutative;

/// Radius at construction and after a reset.
pub const DEFAULT_RADIUS: i64 = 920_000;

/// Point count at construction.
pub const DEFAULT_POINTS: u32 = 500;

/// Chord multiplier at construction.
pub const DEFAULT_MULTIPLIER: u32 = 72;

/// Dot diameter at construction.
pub const DEFAULT_POINT_SIZE: i64 = 2_000_000;

/// Outline ring thickness at construction.
pub const DEFAULT_OUTLINE_WIDTH: i64 = 5_000;

/// A channel value mapped from `[0, 255]` to a fixed-point fraction of one.
pub open spec fn unit_of_channel(c: int) -> int {
    (c * SCALE) / 255
}

/// A color channel as the fixed-point fraction of one that a renderer's
/// uniform expects.
pub fn normalize_u8_to_1(arg: u8) -> (r: i64)
    ensures
        r == unit_of_channel(arg as int),
        0 <= r <= SCALE,
{
    ((arg as i64) * SCALE) / 255
}

/// The shape position with the aspect correction undone on the corrected
/// axis, x component.
pub open spec fn denorm_x(s: Shape) -> int {
    if s.widescreen {
        tdiv(s.pos.x * s.dimensions.y, s.dimensions.x as int)
    } else {
        s.pos.x as int
    }
}

/// The shape position with the aspect correction undone, y component.
pub open spec fn denorm_y(s: Shape) -> int {
    if s.widescreen {
        s.pos.y as int
    } else {
        tdiv(s.pos.y * s.dimensions.x, s.dimensions.y as int)
    }
}

/// The distance between two coordinates.
pub open spec fn dist(a: int, b: int) -> int {
    if a >= b {
        a - b
    } else {
        b - a
    }
}

/// How far a point at distance `d` from the zoom center moves when the radius
/// goes from `old_r` to `new_r`: its distance is scaled by the radius ratio.
pub open spec fn zoom_shift(new_r: int, old_r: int, d: int) -> int {
    tdiv(new_r * d, old_r) - d
}

/// The zoomed circle center along one axis, in denormalized coordinates: the
/// center backs away from the cursor by the shift, so that what sat under the
/// cursor stays under it.
pub open spec fn zoom_center(center: int, cursor: int, new_r: int, old_r: int) -> int {
    let shift = zoom_shift(new_r, old_r, dist(cursor, center));
    if cursor > center {
        center - shift
    } else {
        center + shift
    }
}

/// Re-apply the aspect correction to a denormalized x coordinate.
pub open spec fn renorm_x(s: Shape, nx: int) -> int {
    if s.widescreen {
        tdiv(nx * s.dimensions.x, s.dimensions.y as int)
    } else {
        nx
    }
}

/// Re-apply the aspect correction to a denormalized y coordinate.
pub open spec fn renorm_y(s: Shape, ny: int) -> int {
    if s.widescreen {
        ny
    } else {
        tdiv(ny * s.dimensions.y, s.dimensions.x as int)
    }
}

/// The circle center after a zoom of `val` toward cursor `(mx, my)`, x
/// component.
pub open spec fn zoom_pos_x(s: Shape, val: int, mx: int) -> int {
    renorm_x(s, zoom_center(denorm_x(s), mx, s.r + val, s.r as int))
}

/// The circle center after a zoom of `val` toward cursor `(mx, my)`, y
/// component.
pub open spec fn zoom_pos_y(s: Shape, val: int, my: int) -> int {
    renorm_y(s, zoom_center(denorm_y(s), my, s.r + val, s.r as int))
}

/// A zoom step is accepted exactly when the new radius stays in
/// `(0, R_LIMIT]` and the recentered position stays within `P_LIMIT`.
pub open spec fn zoom_ok(s: Shape, val: int, mx: int, my: int) -> bool {
    &&& 0 < s.r + val <= R_LIMIT
    &&& -P_LIMIT <= zoom_pos_x(s, val, mx) <= P_LIMIT
    &&& -P_LIMIT <= zoom_pos_y(s, val, my) <= P_LIMIT
}

/// Degrees to fixed-point radians: `deg * PI / 180`, on fixed-point degrees.
pub open spec fn rad_of_deg(deg: int) -> int {
    tdiv(deg * PI, 180 * SCALE)
}

/// An angle wrapped into `[0, TWO_PI)`.
pub open spec fn wrap_angle(a: int) -> int {
    a % (TWO_PI as int)
}

/// The zoom keeps the point under the cursor fixed: along either axis, the
/// cursor's offset from the new center relates to the new radius exactly as
/// its offset from the old center related to the old one, so the spot of the
/// shape's local (unrotated, unscaled) frame that sat under the cursor
/// projects back onto the cursor. Stated where the scaled distance divides
/// exactly; otherwise truncation may move the center by up to one millionth.
pub proof fn lemma_zoom_keeps_cursor_point(center: int, cursor: int, old_r: int, new_r: int)
    requires
        old_r >= 1,
        new_r >= 1,
        (new_r * dist(cursor, center)) % old_r == 0,
    ensures
        (cursor - zoom_center(center, cursor, new_r, old_r)) * old_r == (cursor - center) * new_r,
{
    let d = dist(cursor, center);
    let q = tdiv(new_r * d, old_r);
    assert(new_r * d >= 0) by (nonlinear_arith)
        requires
            new_r >= 1,
            d >= 0,
    ;
    assert(q * old_r == new_r * d) by {
        lemma_fundamental_div_mod(new_r * d, old_r);
        lemma_mul_is_commutative(old_r, (new_r * d) / old_r);
    }
    if cursor > center {
        assert(cursor - zoom_center(center, cursor, new_r, old_r) == q);
        assert(q * old_r == (cursor - center) * new_r) by (nonlinear_arith)
            requires
                q * old_r == new_r * d,
                d == cursor - center,
        ;
    } else {
        assert(cursor - zoom_center(center, cursor, new_r, old_r) == -q);
        assert((-q) * old_r == (cursor - center) * new_r) by (nonlinear_arith)
            requires
                q * old_r == new_r * d,
                d == center - cursor,
        ;
    }
}

/// One render session: a shape, the background color and the outline flag.
pub struct Canvas {
    /// The one shape this session owns.
    pub shape: Shape,
    /// Background color.
    pub bg: Color,
    /// Whether [`Canvas::draw`] emits the outline ring.
    pub enable_outline: bool,
}

/// Everything one frame needs, in back-to-front draw order: background, then
/// the optional outline ring (outer fan in the foreground color, inner fan
/// overdrawn in the background color), then the chords, then the points, so
/// that points are never occluded.
pub struct Frame {
    /// Foreground color as fixed-point fractions of one.
    pub fg: (i64, i64, i64),
    /// Background color as fixed-point fractions of one.
    pub bg: (i64, i64, i64),
    /// The outline ring's outer and inner fans, present exactly when the
    /// outline is enabled.
    pub outline: Option<(Vec<i64>, Vec<i64>)>,
    /// Chord endpoints, `4 * points` scalars.
    pub lines: Vec<i64>,
    /// Point positions, `2 * points` scalars.
    pub points: Vec<i64>,
    /// Dot diameter for the point pass.
    pub point_size: i64,
}

impl Canvas {
    /// The session invariant: its shape is well formed.
    pub open spec fn wf(self) -> bool {
        self.shape.wf()
    }

    /// A fresh session for a viewport of the given pixel dimensions, holding
    /// the default shape; fails exactly when a dimension is out of range.
    pub fn new(width: i64, height: i64) -> (res: Result<Canvas, CanvasError>)
        ensures
            res is Ok <==> (1 <= width <= DIM_LIMIT && 1 <= height <= DIM_LIMIT),
            res is Err ==> res == Err::<Canvas, CanvasError>(CanvasError::InvalidDimensions),
            res matches Ok(c) ==> c.wf() && c == (Canvas {
                shape: (Shape {
                    points: DEFAULT_POINTS,
                    mul: DEFAULT_MULTIPLIER,
                    r: DEFAULT_RADIUS,
                    color: (Color { r: 250, g: 250, b: 250 }),
                    pos: (Point { x: 0, y: 0 }),
                    point_size: DEFAULT_POINT_SIZE,
                    dimensions: (Point { x: width, y: height }),
                    widescreen: width >= height,
                    rotation: 0,
                    outline_width: DEFAULT_OUTLINE_WIDTH,
                    outline_segments: 1440,
                }),
                bg: (Color { r: 24, g: 24, b: 24 }),
                enable_outline: false,
            }),
    {
        if width < 1 || width > DIM_LIMIT || height < 1 || height > DIM_LIMIT {
            return Err(CanvasError::InvalidDimensions);
        }
        Ok(
            Canvas {
                shape: Shape {
                    points: DEFAULT_POINTS,
                    mul: DEFAULT_MULTIPLIER,
                    r: DEFAULT_RADIUS,
                    color: Color { r: 250, g: 250, b: 250 },
                    pos: Point { x: 0, y: 0 },
                    point_size: DEFAULT_POINT_SIZE,
                    dimensions: Point { x: width, y: height },
                    widescreen: width >= height,
                    rotation: 0,
                    outline_width: DEFAULT_OUTLINE_WIDTH,
                    outline_segments: 1440,
                },
                bg: Color { r: 24, g: 24, b: 24 },
                enable_outline: false,
            },
        )
    }

    /// Adopt new viewport dimensions and recompute the derived widescreen
    /// flag; fails exactly when a dimension is out of range, and is
    /// idempotent for identical inputs.
    pub fn adjust_view(&mut self, width: i64, height: i64) -> (res: Result<(), CanvasError>)
        requires
            old(self).wf(),
        ensures
            res is Ok <==> (1 <= width <= DIM_LIMIT && 1 <= height <= DIM_LIMIT),
            res is Err ==> *final(self) == *old(self) && res == Err::<(), CanvasError>(
                CanvasError::InvalidDimensions,
            ),
            res is Ok ==> *final(self) == (Canvas {
                shape: (Shape {
                    dimensions: (Point { x: width, y: height }),
                    widescreen: width >= height,
                    ..old(self).shape
                }),
                ..*old(self)
            }),
            final(self).wf(),
    {
        if width < 1 || width > DIM_LIMIT || height < 1 || height > DIM_LIMIT {
            return Err(CanvasError::InvalidDimensions);
        }
        self.shape.dimensions = Point { x: width, y: height };
        self.shape.widescreen = width >= height;
        Ok(())
    }

    /// Restore radius, position and rotation to their construction-time
    /// defaults.
    pub fn reset(&mut self)
        requires
            old(self).wf(),
        ensures
            *final(self) == (Canvas {
                shape: (Shape {
                    r: DEFAULT_RADIUS,
                    pos: (Point { x: 0, y: 0 }),
                    rotation: 0,
                    ..old(self).shape
                }),
                ..*old(self)
            }),
            final(self).wf(),
    {
        self.shape.r = DEFAULT_RADIUS;
        self.shape.pos = Point { x: 0, y: 0 };
        self.shape.rotation = 0;
    }

    /// Set the point count; the outline tessellation follows it (the point
    /// count itself once beyond the floor, else the floor).
    pub fn set_points(&mut self, value: u32) -> (res: Result<(), CanvasError>)
        requires
            old(self).wf(),
        ensures
            res is Ok <==> 1 <= value <= MAX_POINTS,
            res is Ok ==> *final(self) == (Canvas {
                shape: (Shape {
                    points: value,
                    outline_segments: segment_count(value as int) as u32,
                    ..old(self).shape
                }),
                ..*old(self)
            }),
            res is Err ==> *final(self) == *old(self) && res == Err::<(), CanvasError>(
                CanvasError::InvalidPointCount,
            ),
            final(self).wf(),
    {
        match self.shape.set_points(value) {
            Ok(()) => Ok(()),
            Err(e) => Err(e),
        }
    }

    /// Set the chord multiplier; every value is acceptable.
    pub fn set_multiplier(&mut self, value: u32)
        requires
            old(self).wf(),
        ensures
            *final(self) == (Canvas {
                shape: (Shape { mul: value, ..old(self).shape }),
                ..*old(self)
            }),
            final(self).wf(),
    {
        self.shape.set_multiplier(value);
    }

    /// Set the rotation from fixed-point degrees: the stored angle is exactly
    /// `deg * PI / 180` wrapped into `[0, TWO_PI)`, whatever was stored
    /// before.
    pub fn set_rotation(&mut self, deg: i64)
        requires
            old(self).wf(),
        ensures
            *final(self) == (Canvas {
                shape: (Shape {
                    rotation: wrap_angle(rad_of_deg(deg as int)) as i64,
                    ..old(self).shape
                }),
                ..*old(self)
            }),
            final(self).wf(),
    {
        let rad: i128 = ((deg as i128) * (PI as i128)) / ((180 * SCALE) as i128);
        let rem: i128 = rad % (TWO_PI as i128);
        let rot: i64 = if rem < 0 {
            (rem + TWO_PI as i128) as i64
        } else {
            rem as i64
        };
        proof {
            lemma_fundamental_div_mod(rad as int, TWO_PI as int);
            lemma_fundamental_div_mod_converse_mod(
                rad as int,
                TWO_PI as int,
                rad as int / (TWO_PI as int),
                rot as int,
            );
        }
        self.shape.rotation = rot;
    }

    /// The current radius.
    pub fn get_r(&self) -> (r: i64)
        ensures
            r == self.shape.r,
    {
        self.shape.r
    }

    /// Toggle the outline ring.
    pub fn set_enable_outline(&mut self, value: bool)
        ensures
            *final(self) == (Canvas { enable_outline: value, ..*old(self) }),
    {
        self.enable_outline = value;
    }

    /// Pan the shape by an additive offset; fails exactly when the new
    /// position would leave the allowed range, and then changes nothing.
    pub fn move_shape(&mut self, dx: i64, dy: i64) -> (res: Result<(), CanvasError>)
        requires
            old(self).wf(),
        ensures
            res is Ok <==> (-P_LIMIT <= old(self).shape.pos.x + dx <= P_LIMIT && -P_LIMIT <= old(
                self,
            ).shape.pos.y + dy <= P_LIMIT),
            res is Ok ==> *final(self) == (Canvas {
                shape: (Shape {
                    pos: (Point {
                        x: (old(self).shape.pos.x + dx) as i64,
                        y: (old(self).shape.pos.y + dy) as i64,
                    }),
                    ..old(self).shape
                }),
                ..*old(self)
            }),
            res is Err ==> *final(self) == *old(self) && res == Err::<(), CanvasError>(
                CanvasError::PositionOutOfRange,
            ),
            final(self).wf(),
    {
        let nx: i128 = (self.shape.pos.x as i128) + (dx as i128);
        let ny: i128 = (self.shape.pos.y as i128) + (dy as i128);
        if nx < -P_LIMIT as i128 || nx > P_LIMIT as i128 || ny < -P_LIMIT as i128 || ny
            > P_LIMIT as i128 {
            return Err(CanvasError::PositionOutOfRange);
        }
        self.shape.pos = Point { x: nx as i64, y: ny as i64 };
        Ok(())
    }

    /// Grow or shrink the radius by `val` while recentering the position so
    /// that the spot under the cursor `(mx, my)` stays visually fixed: the
    /// stored position is denormalized (aspect correction undone), the
    /// cursor's distance from the center on each axis is scaled by the ratio
    /// of new to old radius, the center backs away from the cursor by the
    /// difference, and the result is normalized again. Fails exactly when the
    /// new radius or the new center would leave the allowed ranges, and then
    /// changes nothing.
    pub fn add_to_r(&mut self, val: i64, mx: i64, my: i64) -> (res: Result<(), CanvasError>)
        requires
            old(self).wf(),
            -P_LIMIT <= mx <= P_LIMIT,
            -P_LIMIT <= my <= P_LIMIT,
        ensures
            res is Ok <==> zoom_ok(old(self).shape, val as int, mx as int, my as int),
            res is Ok ==> *final(self) == (Canvas {
                shape: (Shape {
                    r: (old(self).shape.r + val) as i64,
                    pos: (Point {
                        x: zoom_pos_x(old(self).shape, val as int, mx as int) as i64,
                        y: zoom_pos_y(old(self).shape, val as int, my as int) as i64,
                    }),
                    ..old(self).shape
                }),
                ..*old(self)
            }),
            res is Err ==> *final(self) == *old(self),
            res == Err::<(), CanvasError>(CanvasError::NonPositiveRadius) <==> old(self).shape.r
                + val <= 0,
            res == Err::<(), CanvasError>(CanvasError::RadiusOutOfRange) <==> old(self).shape.r
                + val > R_LIMIT,
            res == Err::<(), CanvasError>(CanvasError::PositionOutOfRange) <==> (0 < old(
                self,
            ).shape.r + val <= R_LIMIT && !zoom_ok(old(self).shape, val as int, mx as int, my as int)),
            final(self).wf(),
    {
        let old_r: i64 = self.shape.r;
        let wide_r: i128 = (old_r as i128) + (val as i128);
        if wide_r <= 0 {
            return Err(CanvasError::NonPositiveRadius);
        }
        if wide_r > R_LIMIT as i128 {
            return Err(CanvasError::RadiusOutOfRange);
        }
        let new_r: i64 = wide_r as i64;
        let dx_dim: i64 = self.shape.dimensions.x;
        let dy_dim: i64 = self.shape.dimensions.y;
        let ws: bool = self.shape.widescreen;
        let px: i64 = self.shape.pos.x;
        let py: i64 = self.shape.pos.y;

        // Undo the aspect correction on the corrected axis.
        let denx: i64 = if ws {
            proof {
                assert(-(P_LIMIT * dx_dim) <= px * dy_dim <= P_LIMIT * dx_dim) by (nonlinear_arith)
                    requires
                        -P_LIMIT <= px <= P_LIMIT,
                        1 <= dy_dim <= dx_dim,
                ;
                lemma_tdiv_bound(px * dy_dim, dx_dim as int, P_LIMIT as int);
            }
            mul_tdiv(px, dy_dim, dx_dim)
        } else {
            px
        };
        let deny: i64 = if ws {
            py
        } else {
            proof {
                assert(-(P_LIMIT * dy_dim) <= py * dx_dim <= P_LIMIT * dy_dim) by (nonlinear_arith)
                    requires
                        -P_LIMIT <= py <= P_LIMIT,
                        1 <= dx_dim <= dy_dim,
                ;
                lemma_tdiv_bound(py * dx_dim, dy_dim as int, P_LIMIT as int);
            }
            mul_tdiv(py, dx_dim, dy_dim)
        };
        assert(denx == denorm_x(old(self).shape));
        assert(deny == denorm_y(old(self).shape));
        assert(-P_LIMIT <= denx <= P_LIMIT);
        assert(-P_LIMIT <= deny <= P_LIMIT);

        // Cursor distance from the center, scaled by the radius ratio.
        let dfx: i64 = mx - denx;
        let pdx: i64 = if dfx < 0 {
            -dfx
        } else {
            dfx
        };
        let dfy: i64 = my - deny;
        let pdy: i64 = if dfy < 0 {
            -dfy
        } else {
            dfy
        };
        proof {
            assert(0 <= (new_r as int) * (pdx as int) <= 2_000_000_000_000_000_000_000_000)
                by (nonlinear_arith)
                requires
                    0 < new_r <= R_LIMIT,
                    0 <= pdx <= 2 * P_LIMIT,
                    R_LIMIT == 1_000_000_000_000,
                    P_LIMIT == 1_000_000_000_000,
            ;
            assert(0 <= (new_r as int) * (pdy as int) <= 2_000_000_000_000_000_000_000_000)
                by (nonlinear_arith)
                requires
                    0 < new_r <= R_LIMIT,
                    0 <= pdy <= 2 * P_LIMIT,
                    R_LIMIT == 1_000_000_000_000,
                    P_LIMIT == 1_000_000_000_000,
            ;
        }
        let qx: i128 = ((new_r as i128) * (pdx as i128)) / (old_r as i128);
        let qy: i128 = ((new_r as i128) * (pdy as i128)) / (old_r as i128);
        proof {
            lemma_tdiv_shrinks((new_r as int) * (pdx as int), old_r as int);
            lemma_tdiv_shrinks((new_r as int) * (pdy as int), old_r as int);
        }
        let shiftx: i128 = qx - (pdx as i128);
        let shifty: i128 = qy - (pdy as i128);
        assert(shiftx == zoom_shift(new_r as int, old_r as int, dist(mx as int, denx as int)));
        assert(shifty == zoom_shift(new_r as int, old_r as int, dist(my as int, deny as int)));

        // Back the center away from the cursor by the shift.
        let ndx: i128 = if mx > denx {
            (denx as i128) - shiftx
        } else {
            (denx as i128) + shiftx
        };
        let ndy: i128 = if my > deny {
            (deny as i128) - shifty
        } else {
            (deny as i128) + shifty
        };
        assert(ndx == zoom_center(denx as int, mx as int, new_r as int, old_r as int));
        assert(ndy == zoom_center(deny as int, my as int, new_r as int, old_r as int));
        assert(-4_000_000_000_000_000_000_000_000 <= ndx <= 4_000_000_000_000_000_000_000_000);
        assert(-4_000_000_000_000_000_000_000_000 <= ndy <= 4_000_000_000_000_000_000_000_000);

        // Re-apply the aspect correction.
        let npx: i128 = if ws {
            proof {
                assert((ndx as int) * (dx_dim as int)
                    <= 4_000_000_000_000_000_000_000_000 * 16_777_216 && (ndx as int) * (
                dx_dim as int) >= -4_000_000_000_000_000_000_000_000 * 16_777_216)
                    by (nonlinear_arith)
                    requires
                        -4_000_000_000_000_000_000_000_000 <= ndx
                            <= 4_000_000_000_000_000_000_000_000,
                        1 <= dx_dim <= 16_777_216,
                ;
            }
            (ndx * (dx_dim as i128)) / (dy_dim as i128)
        } else {
            ndx
        };
        let npy: i128 = if ws {
            ndy
        } else {
            proof {
                assert((ndy as int) * (dy_dim as int)
                    <= 4_000_000_000_000_000_000_000_000 * 16_777_216 && (ndy as int) * (
                dy_dim as int) >= -4_000_000_000_000_000_000_000_000 * 16_777_216)
                    by (nonlinear_arith)
                    requires
                        -4_000_000_000_000_000_000_000_000 <= ndy
                            <= 4_000_000_000_000_000_000_000_000,
                        1 <= dy_dim <= 16_777_216,
                ;
            }
            (ndy * (dy_dim as i128)) / (dx_dim as i128)
        };
        assert(npx == zoom_pos_x(old(self).shape, val as int, mx as int));
        assert(npy == zoom_pos_y(old(self).shape, val as int, my as int));

        if npx < -(P_LIMIT as i128) || npx > P_LIMIT as i128 || npy < -(P_LIMIT as i128) || npy
            > P_LIMIT as i128 {
            return Err(CanvasError::PositionOutOfRange);
        }
        self.shape.r = new_r;
        self.shape.pos = Point { x: npx as i64, y: npy as i64 };
        Ok(())
    }

    /// Normalized foreground color, one fixed-point fraction per channel, for
    /// the renderer's color uniform.
    pub fn update_fg_color(&self) -> (c: (i64, i64, i64))
        ensures
            c.0 == unit_of_channel(self.shape.color.r as int),
            c.1 == unit_of_channel(self.shape.color.g as int),
            c.2 == unit_of_channel(self.shape.color.b as int),
    {
        (
            normalize_u8_to_1(self.shape.color.r),
            normalize_u8_to_1(self.shape.color.g),
            normalize_u8_to_1(self.shape.color.b),
        )
    }

    /// Normalized background color, for the clear pass that precedes drawing.
    pub fn clear(&self) -> (c: (i64, i64, i64))
        ensures
            c.0 == unit_of_channel(self.bg.r as int),
            c.1 == unit_of_channel(self.bg.g as int),
            c.2 == unit_of_channel(self.bg.b as int),
    {
        (normalize_u8_to_1(self.bg.r), normalize_u8_to_1(self.bg.g), normalize_u8_to_1(self.bg.b))
    }

    /// The outline ring's two fans, outer first (drawn in the foreground
    /// color, then overdrawn inside with the background color).
    pub fn draw_outline(&self) -> (fans: (Vec<i64>, Vec<i64>))
        requires
            self.wf(),
        ensures
            is_ring_fan(self.shape, outer_radius(self.shape), fans.0@),
            is_ring_fan(self.shape, inner_radius(self.shape), fans.1@),
    {
        outline_ring(&self.shape)
    }

    /// The chord buffer of the current shape.
    pub fn draw_lines(&self) -> (buf: Vec<i64>)
        requires
            self.wf(),
        ensures
            buf.len() == 4 * self.shape.points,
            forall|j: int| 0 <= j < self.shape.points ==> #[trigger] chord_at(self.shape, buf@, j),
    {
        lines_buffer(&self.shape)
    }

    /// The point buffer of the current shape.
    pub fn draw_points(&self) -> (buf: Vec<i64>)
        requires
            self.wf(),
        ensures
            buf.len() == 2 * self.shape.points,
            forall|j: int|
                0 <= j < self.shape.points ==> buf[2 * j] == point_x_of(self.shape, j) && buf[2 * j
                    + 1] == point_y_of(self.shape, j),
    {
        points_buffer(&self.shape)
    }

    /// Everything one frame needs, recomputed from the current state: colors,
    /// the outline fans when enabled, chords and points, in back-to-front
    /// order.
    pub fn draw(&self) -> (frame: Frame)
        requires
            self.wf(),
        ensures
            frame.fg.0 == unit_of_channel(self.shape.color.r as int),
            frame.fg.1 == unit_of_channel(self.shape.color.g as int),
            frame.fg.2 == unit_of_channel(self.shape.color.b as int),
            frame.bg.0 == unit_of_channel(self.bg.r as int),
            frame.bg.1 == unit_of_channel(self.bg.g as int),
            frame.bg.2 == unit_of_channel(self.bg.b as int),
            frame.outline is Some <==> self.enable_outline,
            frame.outline matches Some(fans) ==> is_ring_fan(
                self.shape,
                outer_radius(self.shape),
                fans.0@,
            ) && is_ring_fan(self.shape, inner_radius(self.shape), fans.1@),
            frame.lines.len() == 4 * self.shape.points,
            forall|j: int|
                0 <= j < self.shape.points ==> #[trigger] chord_at(self.shape, frame.lines@, j),
            frame.points.len() == 2 * self.shape.points,
            forall|j: int|
                0 <= j < self.shape.points ==> frame.points[2 * j] == point_x_of(self.shape, j)
                    && frame.points[2 * j + 1] == point_y_of(self.shape, j),
            frame.point_size == self.shape.point_size,
    {
        let fg: (i64, i64, i64) = self.update_fg_color();
        let bg: (i64, i64, i64) = self.clear();
        let outline: Option<(Vec<i64>, Vec<i64>)> = if self.enable_outline {
            Some(self.draw_outline())
        } else {
            None
        };
        let lines: Vec<i64> = self.draw_lines();
        let points: Vec<i64> = self.draw_points();
        Frame { fg, bg, outline, lines, points, point_size: self.shape.point_size }
    }
}

} // verus!
