//! Vectors with integer coordinates, and the two measurements that every
//! collision rests on: whether two boxes overlap, and how deep.
//!
//! A box is given by its center and its half-extent. All distances are whole
//! numbers of units; what a unit is (a pixel, a fraction of one) is the
//! caller's choice.

use vstd::math::abs;
use vstd::prelude::*;

verus! {

/// The largest magnitude a coordinate or a half-extent may have.
///
/// With every coordinate within `LIMIT` of zero, differences and sums of two of
/// them fit in an `i64` with room to spare.
pub const LIMIT: i64 = 0x1000_0000_0000_0000;

/// A point or a displacement in the plane, in whole units.
#[derive(Clone, Copy, PartialEq, Eq, Structural, Debug)]
pub struct Vec2 {
    pub x: i64,
    pub y: i64,
}

impl Vec2 {
    /// Both coordinates lie within `LIMIT` of zero.
    pub open spec fn in_range(self) -> bool {
        -LIMIT <= self.x <= LIMIT && -LIMIT <= self.y <= LIMIT
    }

    /// Both coordinates lie between zero and `LIMIT`: the vector can be the
    /// half-extent of a box.
    pub open spec fn is_extent(self) -> bool {
        0 <= self.x <= LIMIT && 0 <= self.y <= LIMIT
    }

    /// The vector `(0, 0)`.
    pub open spec fn spec_zero() -> Vec2 {
        Vec2 { x: 0, y: 0 }
    }

    pub fn new(x: i64, y: i64) -> (v: Vec2)
        ensures
            v == (Vec2 { x, y }),
    {
        Vec2 { x, y }
    }

    #[verifier::when_used_as_spec(spec_zero)]
    pub fn zero() -> (v: Vec2)
        ensures
            v == Vec2::spec_zero(),
    {
        Vec2 { x: 0, y: 0 }
    }

    /// This point moved by `(by_x, by_y)`, each coordinate stopping at the
    /// edge of the range where the move would carry it past.
    pub open spec fn spec_moved(self, by_x: int, by_y: int) -> Vec2 {
        Vec2 { x: clamp(self.x + by_x), y: clamp(self.y + by_y) }
    }

    /// This point moved by `(by_x, by_y)`. A coordinate that the move would
    /// carry out of the range stops at the edge.
    pub fn moved(&self, by_x: i64, by_y: i64) -> (p: Vec2)
        ensures
            p == self.spec_moved(by_x as int, by_y as int),
            p.in_range(),
    {
        Vec2 { x: clamped_sum(self.x, by_x), y: clamped_sum(self.y, by_y) }
    }

    /// Tests `in_range`.
    pub fn fits(&self) -> (b: bool)
        ensures
            b == self.in_range(),
    {
        -LIMIT <= self.x && self.x <= LIMIT && -LIMIT <= self.y && self.y <= LIMIT
    }

    /// Tests `is_extent`.
    pub fn fits_extent(&self) -> (b: bool)
        ensures
            b == self.is_extent(),
    {
        0 <= self.x && self.x <= LIMIT && 0 <= self.y && self.y <= LIMIT
    }
}

/// A cell of a grid, or a number of cells along each axis.
#[derive(Clone, Copy, PartialEq, Eq, Structural, Debug)]
pub struct IVec2 {
    pub x: i32,
    pub y: i32,
}

/// `v` where an `i32` can hold it, and else the nearest number that one can
/// hold.
pub open spec fn clamp_i32(v: int) -> i32 {
    if v < i32::MIN {
        i32::MIN
    } else if v > i32::MAX {
        i32::MAX
    } else {
        v as i32
    }
}

/// `a - b`, held to what an `i32` can hold.
pub fn clamped_difference(a: i32, b: i32) -> (d: i32)
    ensures
        d == clamp_i32(a - b),
{
    let wide: i64 = a as i64 - b as i64;
    if wide < i32::MIN as i64 {
        i32::MIN
    } else if wide > i32::MAX as i64 {
        i32::MAX
    } else {
        wide as i32
    }
}

impl IVec2 {
    /// The cell `(0, 0)`, or no cells along either axis.
    pub open spec fn spec_zero() -> IVec2 {
        IVec2 { x: 0, y: 0 }
    }

    /// This vector less `other`, axis by axis, each difference held to what an
    /// `i32` can hold.
    pub open spec fn spec_minus(self, other: IVec2) -> IVec2 {
        IVec2 { x: clamp_i32(self.x - other.x), y: clamp_i32(self.y - other.y) }
    }

    /// One step along each axis on which this vector is not zero, in the
    /// direction in which it points.
    pub open spec fn spec_direction(self) -> IVec2 {
        IVec2 {
            x: if self.x > 1 {
                1i32
            } else if self.x < -1 {
                -1i32
            } else {
                self.x
            },
            y: if self.y > 1 {
                1i32
            } else if self.y < -1 {
                -1i32
            } else {
                self.y
            },
        }
    }

    pub fn new(x: i32, y: i32) -> (v: IVec2)
        ensures
            v == (IVec2 { x, y }),
    {
        IVec2 { x, y }
    }

    #[verifier::when_used_as_spec(spec_zero)]
    pub fn zero() -> (v: IVec2)
        ensures
            v == IVec2::spec_zero(),
    {
        IVec2 { x: 0, y: 0 }
    }

    /// This vector less `other`, axis by axis.
    #[verifier::when_used_as_spec(spec_minus)]
    pub fn minus(self, other: IVec2) -> (d: IVec2)
        ensures
            d == self.spec_minus(other),
    {
        IVec2 { x: clamped_difference(self.x, other.x), y: clamped_difference(self.y, other.y) }
    }
}

/// `v` where it lies within `LIMIT` of zero, and else the end of that range
/// that is nearer to it.
pub open spec fn clamp(v: int) -> i64 {
    if v < -LIMIT {
        (-LIMIT) as i64
    } else if v > LIMIT {
        LIMIT
    } else {
        v as i64
    }
}

/// `a + b`, held to the range.
pub fn clamped_sum(a: i64, b: i64) -> (s: i64)
    ensures
        s == clamp(a + b),
        -LIMIT <= s <= LIMIT,
{
    let wide: i128 = a as i128 + b as i128;
    if wide < -(LIMIT as i128) {
        -LIMIT
    } else if wide > LIMIT as i128 {
        LIMIT
    } else {
        wide as i64
    }
}

/// On one axis: the intervals around `ca` and `cb`, of half-lengths `ha` and
/// `hb`, have a point in common. The intervals are closed, so two that only
/// touch do overlap.
pub open spec fn overlap_1d(ca: int, ha: int, cb: int, hb: int) -> bool {
    abs(ca - cb) <= ha + hb
}

/// On one axis: how far interval `a` reaches into interval `b`, signed by the
/// side of `b` on which `a` lies. The magnitude is `ha + hb - |ca - cb|`; the
/// sign is that of `ca - cb`, and positive where the centers coincide.
pub open spec fn depth_1d(ca: int, ha: int, cb: int, hb: int) -> int {
    let gap = ha + hb - abs(ca - cb);
    if ca - cb < 0 {
        -gap
    } else {
        gap
    }
}

/// The two boxes overlap on both axes.
pub open spec fn spec_intersects(
    center_i: Vec2,
    half_size_i: Vec2,
    center_j: Vec2,
    half_size_j: Vec2,
) -> bool {
    &&& overlap_1d(center_i.x as int, half_size_i.x as int, center_j.x as int, half_size_j.x as int)
    &&& overlap_1d(center_i.y as int, half_size_i.y as int, center_j.y as int, half_size_j.y as int)
}

/// The signed depth of box `i` in box `j`, axis by axis. It points from `j`
/// toward `i`.
pub open spec fn spec_find_displacement(
    center_i: Vec2,
    half_size_i: Vec2,
    center_j: Vec2,
    half_size_j: Vec2,
) -> Vec2 {
    Vec2 {
        x: depth_1d(
            center_i.x as int,
            half_size_i.x as int,
            center_j.x as int,
            half_size_j.x as int,
        ) as i64,
        y: depth_1d(
            center_i.y as int,
            half_size_i.y as int,
            center_j.y as int,
            half_size_j.y as int,
        ) as i64,
    }
}

/// The magnitude of `v`.
pub fn magnitude(v: i64) -> (m: u64)
    ensures
        m == abs(v as int),
{
    if v < 0 {
        (-(v as i128)) as u64
    } else {
        v as u64
    }
}

/// Whether two boxes overlap. Boxes that share only an edge or a corner do.
pub fn intersects(center_i: Vec2, half_size_i: Vec2, center_j: Vec2, half_size_j: Vec2) -> (hit:
    bool)
    ensures
        hit == spec_intersects(center_i, half_size_i, center_j, half_size_j),
{
    let dx: i128 = center_i.x as i128 - center_j.x as i128;
    let dy: i128 = center_i.y as i128 - center_j.y as i128;
    let dx_abs: i128 = if dx < 0 { -dx } else { dx };
    let dy_abs: i128 = if dy < 0 { -dy } else { dy };
    dx_abs <= half_size_i.x as i128 + half_size_j.x as i128 && dy_abs <= half_size_i.y as i128
        + half_size_j.y as i128
}

/// How deep box `i` sits in box `j` on each axis, signed so that the vector
/// points from `j` toward `i`.
///
/// Both coordinates are filled in whether or not the boxes overlap: a negative
/// magnitude on an axis is the width of the gap there. Use `intersects` to learn
/// whether the boxes touch at all.
pub fn find_displacement(
    center_i: Vec2,
    half_size_i: Vec2,
    center_j: Vec2,
    half_size_j: Vec2,
) -> (d: Vec2)
    requires
        center_i.in_range(),
        center_j.in_range(),
        half_size_i.is_extent(),
        half_size_j.is_extent(),
    ensures
        d == spec_find_displacement(center_i, half_size_i, center_j, half_size_j),
        d.x == depth_1d(
            center_i.x as int,
            half_size_i.x as int,
            center_j.x as int,
            half_size_j.x as int,
        ),
        d.y == depth_1d(
            center_i.y as int,
            half_size_i.y as int,
            center_j.y as int,
            half_size_j.y as int,
        ),
        -2 * LIMIT <= d.x <= 2 * LIMIT,
        -2 * LIMIT <= d.y <= 2 * LIMIT,
{
    let dx: i64 = center_i.x - center_j.x;
    let dy: i64 = center_i.y - center_j.y;
    let gap_x: i64 = half_size_i.x + half_size_j.x - (if dx < 0 { -dx } else { dx });
    let gap_y: i64 = half_size_i.y + half_size_j.y - (if dy < 0 { -dy } else { dy });
    Vec2 { x: if dx < 0 { -gap_x } else { gap_x }, y: if dy < 0 { -gap_y } else { gap_y } }
}

/// Overlap does not depend on the order in which the two boxes are given.
pub proof fn lemma_intersects_symmetric(
    center_a: Vec2,
    half_size_a: Vec2,
    center_b: Vec2,
    half_size_b: Vec2,
)
    ensures
        spec_intersects(center_a, half_size_a, center_b, half_size_b) == spec_intersects(
            center_b,
            half_size_b,
            center_a,
            half_size_a,
        ),
{
}

/// On one axis, swapping the two intervals negates the depth exactly when the
/// centers differ or the intervals have no length: two intervals around one
/// point sit in each other with the same positive sign.
pub proof fn lemma_depth_antisymmetric(ca: int, ha: int, cb: int, hb: int)
    ensures
        (ca != cb || ha + hb == 0) <==> depth_1d(ca, ha, cb, hb) == -depth_1d(cb, hb, ca, ha),
{
}

/// Swapping the two boxes negates the displacement, for boxes whose centers
/// differ on both axes.
pub proof fn lemma_displacement_antisymmetric(
    center_a: Vec2,
    half_size_a: Vec2,
    center_b: Vec2,
    half_size_b: Vec2,
)
    requires
        center_a.in_range(),
        center_b.in_range(),
        half_size_a.is_extent(),
        half_size_b.is_extent(),
        center_a.x != center_b.x || half_size_a.x + half_size_b.x == 0,
        center_a.y != center_b.y || half_size_a.y + half_size_b.y == 0,
    ensures
        spec_find_displacement(center_a, half_size_a, center_b, half_size_b).x
            == -spec_find_displacement(center_b, half_size_b, center_a, half_size_a).x,
        spec_find_displacement(center_a, half_size_a, center_b, half_size_b).y
            == -spec_find_displacement(center_b, half_size_b, center_a, half_size_a).y,
{
}

} // verus!
