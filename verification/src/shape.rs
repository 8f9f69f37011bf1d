//! The modular-multiplication shape model: pure data plus its invariant, and
//! the mutators that rewrite it in place.

use vstd::prelude::*;

verus! {

use crate::fixed::{DIM_LIMIT, MAX_POINTS, P_LIMIT, R_LIMIT, SCALE, TWO_PI};

/// A 2D scalar pair, used both as a screen-space coordinate and as a generic
/// offset. Components are fixed-point millionths, except in
/// [`Shape::dimensions`] whose components count whole device pixels.
#[derive(Clone, Copy, PartialEq, Eq, Structural, Debug)]
pub struct Point {
    pub x: i64,
    pub y: i64,
}

/// An 8-bit-per-channel color; every channel value is valid.
#[derive(Clone, Copy, PartialEq, Eq, Structural, Debug)]
pub struct Color {
    pub r: u8,
    pub g: u8,
    pub b: u8,
}

/// Why a mutation was refused. The state is left unchanged whenever one of
/// these is returned.
#[derive(Clone, Copy, PartialEq, Eq, Structural, Debug)]
pub enum CanvasError {
    /// A point count of zero, or one beyond `MAX_POINTS`.
    InvalidPointCount,
    /// A viewport dimension of zero, or one beyond `DIM_LIMIT`.
    InvalidDimensions,
    /// A zoom step that would drive the radius to zero or below.
    NonPositiveRadius,
    /// A zoom step that would drive the radius beyond `R_LIMIT`.
    RadiusOutOfRange,
    /// A move or zoom that would drive the center beyond `P_LIMIT`.
    PositionOutOfRange,
}

/// The outline ring is never tessellated coarser than this many segments.
pub const OUTLINE_SEGMENT_FLOOR: u32 = 1440;

/// Tessellation detail of the outline ring for a given point count: the point
/// count itself, but never under `OUTLINE_SEGMENT_FLOOR`.
pub open spec fn segment_count(points: int) -> int {
    if points > OUTLINE_SEGMENT_FLOOR {
        points
    } else {
        OUTLINE_SEGMENT_FLOOR as int
    }
}

/// The modular-multiplication model: `points` vertices on a circle of radius
/// `r`, vertex `i` joined by a chord to vertex `(i * mul) mod points`.
#[derive(Clone, Copy, PartialEq, Eq, Structural, Debug)]
pub struct Shape {
    /// Number of vertices on the circle; positive.
    pub points: u32,
    /// Chord multiplier in `(i * mul) mod points`.
    pub mul: u32,
    /// Circle radius in normalized units before aspect correction; positive.
    pub r: i64,
    /// Foreground color.
    pub color: Color,
    /// Circle center offset in normalized, aspect-corrected space.
    pub pos: Point,
    /// Rendered dot diameter; positive.
    pub point_size: i64,
    /// Current viewport width and height in whole device pixels; positive.
    pub dimensions: Point,
    /// True when width >= height; derived from `dimensions`, and selects
    /// which axis receives aspect correction.
    pub widescreen: bool,
    /// Angle applied to all point positions, in fixed-point radians, kept
    /// normalized to `[0, TWO_PI)`.
    pub rotation: i64,
    /// Thickness of the outline ring.
    pub outline_width: i64,
    /// Tessellation detail of the outline ring; always
    /// `segment_count(points)`.
    pub outline_segments: u32,
}

impl Shape {
    /// The shape invariant: every constructor establishes it and every
    /// mutator preserves it.
    pub open spec fn wf(self) -> bool {
        &&& 1 <= self.points <= MAX_POINTS
        &&& 0 < self.r <= R_LIMIT
        &&& -P_LIMIT <= self.pos.x <= P_LIMIT
        &&& -P_LIMIT <= self.pos.y <= P_LIMIT
        &&& 0 < self.point_size
        &&& 1 <= self.dimensions.x <= DIM_LIMIT
        &&& 1 <= self.dimensions.y <= DIM_LIMIT
        &&& self.widescreen == (self.dimensions.x >= self.dimensions.y)
        &&& 0 <= self.rotation < TWO_PI
        &&& 0 <= self.outline_width <= SCALE
        &&& self.outline_segments == segment_count(self.points as int)
    }

    /// Overwrite the foreground color; every channel value is acceptable.
    pub fn set_color(&mut self, r: u8, g: u8, b: u8)
        ensures
            *final(self) == (Shape { color: (Color { r, g, b }), ..*old(self) }),
    {
        self.color = Color { r, g, b };
    }

    /// Set the point count and recompute the outline tessellation to match.
    /// Zero points would make the point angle undefined, so it is refused;
    /// so is a count beyond `MAX_POINTS`.
    pub fn set_points(&mut self, value: u32) -> (res: Result<(), CanvasError>)
        ensures
            res is Ok <==> 1 <= value <= MAX_POINTS,
            res is Ok ==> *final(self) == (Shape {
                points: value,
                outline_segments: segment_count(value as int) as u32,
                ..*old(self)
            }),
            res is Err ==> *final(self) == *old(self) && res == Err::<(), CanvasError>(
                CanvasError::InvalidPointCount,
            ),
            old(self).wf() && res is Ok ==> final(self).wf(),
    {
        if value == 0 || value > MAX_POINTS {
            return Err(CanvasError::InvalidPointCount);
        }
        self.points = value;
        if value > OUTLINE_SEGMENT_FLOOR {
            self.outline_segments = value;
        } else {
            self.outline_segments = OUTLINE_SEGMENT_FLOOR;
        }
        Ok(())
    }

    /// Set the chord multiplier; any value is acceptable, the modulo in the
    /// chord computation handles all of them.
    pub fn set_multiplier(&mut self, value: u32)
        ensures
            *final(self) == (Shape { mul: value, ..*old(self) }),
    {
        self.mul = value;
    }
}

} // verus!
