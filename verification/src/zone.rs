//! Geometry classifier: turns one analog stick's raw deflection into a
//! discrete zone (the center dead zone or one of eight octants), with an
//! angular guard band between octants that classifies to no zone at all.
//!
//! Stick deflection is held in the device's native scale: a pair of `i16`
//! values where 32767 stands for full deflection along an axis. All geometry
//! is exact integer arithmetic:
//!
//! - the center dead zone is `magnitude < 0.6`, stated on squared magnitudes
//!   as `25 * (x*x + y*y) < 9 * 32767 * 32767`;
//! - octant `k` is the set of directions within 20 degrees of its center
//!   direction (straight up for octant 0, proceeding clockwise in 45-degree
//!   steps), stated through the fixed-point tangent bound
//!   `TAN20_NUM / TAN20_DEN` applied to the cross and dot products of the
//!   point with the octant's center direction. Each octant therefore spans
//!   40 of its 45 degrees, leaving a 5-degree guard band at every boundary
//!   (2.5 degrees on each side) that classifies to `None`.

use vstd::prelude::*;

verus! {

/// Full deflection of one stick axis in device units.
pub const STICK_MAX: i64 = 32767;

/// Numerator of the fixed-point tangent of the 20-degree octant half-width.
pub const TAN20_NUM: i64 = 36397023;

/// Denominator of the fixed-point tangent of the 20-degree octant half-width.
pub const TAN20_DEN: i64 = 100000000;

/// Discrete classification of one stick: one of the eight angular octants,
/// or the center dead zone. Octant 0 is centered straight up; octants
/// proceed clockwise at one-eighth-turn spacing.
#[derive(Debug, Copy, Clone, PartialEq, Eq, Structural)]
pub enum OctantSection {
    Octant(u8),
    Center,
}

/// One stick's deflection in device units; 32767 is full deflection.
/// `y` grows upward, `x` grows rightward.
#[derive(Debug, Copy, Clone, PartialEq, Eq, Default, Structural)]
pub struct XY {
    pub x: i16,
    pub y: i16,
}

/// Horizontal component of octant `k`'s center direction.
pub open spec fn center_x(k: int) -> int {
    if 1 <= k <= 3 {
        1
    } else if 5 <= k <= 7 {
        -1
    } else {
        0
    }
}

/// Vertical component of octant `k`'s center direction.
pub open spec fn center_y(k: int) -> int {
    if k == 0 || k == 1 || k == 7 {
        1
    } else if 3 <= k <= 5 {
        -1
    } else {
        0
    }
}

/// Dot product of the point with octant `k`'s center direction.
pub open spec fn sector_dot(x: int, y: int, k: int) -> int {
    center_x(k) * x + center_y(k) * y
}

/// Cross product of octant `k`'s center direction with the point.
pub open spec fn sector_cross(x: int, y: int, k: int) -> int {
    center_x(k) * y - center_y(k) * x
}

pub open spec fn abs_of(a: int) -> int {
    if a < 0 {
        -a
    } else {
        a
    }
}

/// The point lies within 20 degrees of octant `k`'s center direction:
/// it is on the center direction's half of the plane and the tangent of the
/// angle between them, `|cross| / dot`, is at most `TAN20_NUM / TAN20_DEN`.
pub open spec fn in_sector(x: int, y: int, k: int) -> bool {
    &&& sector_dot(x, y, k) > 0
    &&& (TAN20_DEN as int) * abs_of(sector_cross(x, y, k)) <= (TAN20_NUM as int) * sector_dot(
        x,
        y,
        k,
    )
}

/// The point's magnitude is below six tenths of full deflection.
pub open spec fn is_center(x: int, y: int) -> bool {
    25 * (x * x + y * y) < 9 * (STICK_MAX as int) * (STICK_MAX as int)
}

/// The zone of a raw stick point: the center dead zone when the magnitude is
/// small, otherwise the octant whose sector contains the direction, and no
/// zone at all inside the guard bands between sectors.
pub open spec fn zone_of(x: int, y: int) -> Option<OctantSection> {
    if is_center(x, y) {
        Some(OctantSection::Center)
    } else if in_sector(x, y, 0) {
        Some(OctantSection::Octant(0))
    } else if in_sector(x, y, 1) {
        Some(OctantSection::Octant(1))
    } else if in_sector(x, y, 2) {
        Some(OctantSection::Octant(2))
    } else if in_sector(x, y, 3) {
        Some(OctantSection::Octant(3))
    } else if in_sector(x, y, 4) {
        Some(OctantSection::Octant(4))
    } else if in_sector(x, y, 5) {
        Some(OctantSection::Octant(5))
    } else if in_sector(x, y, 6) {
        Some(OctantSection::Octant(6))
    } else if in_sector(x, y, 7) {
        Some(OctantSection::Octant(7))
    } else {
        None
    }
}

/// Dead zone law: any point whose magnitude is below six tenths of full
/// deflection classifies to `Center`, whatever its direction.
pub proof fn lemma_dead_zone(x: int, y: int)
    requires
        25 * (x * x + y * y) < 9 * (STICK_MAX as int) * (STICK_MAX as int),
    ensures
        zone_of(x, y) == Some(OctantSection::Center),
{
}

/// The classifier's branch set is exhaustive: every octant it reports is
/// numbered below 8, so downstream table lookups never see a hand-built
/// out-of-range zone.
pub proof fn lemma_zone_valid(x: int, y: int)
    ensures
        zone_of(x, y) matches Some(OctantSection::Octant(k)) ==> k < 8,
{
}

/// No two octant sectors overlap: a direction lies within 20 degrees of at
/// most one of the eight center directions, so at most one zone can ever be
/// active for a given point.
pub proof fn lemma_sectors_disjoint(x: int, y: int, j: int, k: int)
    requires
        0 <= j < 8,
        0 <= k < 8,
        j != k,
        in_sector(x, y, j),
    ensures
        !in_sector(x, y, k),
{
}

/// Bin center law: a point anywhere along octant `k`'s center direction, far
/// enough out to leave the dead zone, classifies to exactly octant `k`.
pub proof fn lemma_bin_center(k: int, t: int)
    requires
        0 <= k < 8,
        19661 <= t,
    ensures
        zone_of(t * center_x(k), t * center_y(k)) == Some(OctantSection::Octant(k as u8)),
{
    let cx = center_x(k);
    let cy = center_y(k);
    let x = t * cx;
    let y = t * cy;
    assert(cx * cx + cy * cy == 1 || cx * cx + cy * cy == 2);
    assert(t * t >= 19661 * 19661) by (nonlinear_arith)
        requires
            t >= 19661,
    ;
    assert(x * x + y * y == t * t * (cx * cx + cy * cy)) by (nonlinear_arith)
        requires
            x == t * cx && y == t * cy,
    ;
    assert(t * t * (cx * cx + cy * cy) >= t * t) by (nonlinear_arith)
        requires
            t * t >= 0 && cx * cx + cy * cy >= 1,
    ;
    assert(!is_center(x, y));
    assert(sector_dot(x, y, k) == t * (cx * cx + cy * cy) && sector_cross(x, y, k) == 0)
        by (nonlinear_arith)
        requires
            x == t * cx && y == t * cy && cx == center_x(k) && cy == center_y(k),
    ;
    assert(t * (cx * cx + cy * cy) >= t) by (nonlinear_arith)
        requires
            t >= 0 && cx * cx + cy * cy >= 1,
    ;
    assert(in_sector(x, y, k));
    assert forall|j: int| 0 <= j < 8 && j != k implies !in_sector(x, y, j) by {
        lemma_sectors_disjoint(x, y, k, j);
    }
}

/// Rotating the center direction a quarter turn clockwise (two octants on)
/// swaps the dot and cross products of the point with it, negating one.
proof fn lemma_quarter_turn(x: int, y: int, k: int)
    requires
        0 <= k < 8,
    ensures
        sector_dot(x, y, (k + 2) % 8) == -sector_cross(x, y, k),
        sector_cross(x, y, (k + 2) % 8) == sector_dot(x, y, k),
{
    if k == 0 {
    } else if k == 1 {
    } else if k == 2 {
    } else if k == 3 {
    } else if k == 4 {
    } else if k == 5 {
    } else if k == 6 {
    } else {
    }
}

/// The next octant's center direction is the current one rotated an eighth
/// turn clockwise, so its dot and cross products with the point are the
/// rotated pair, halved when the current center direction is a diagonal.
proof fn lemma_eighth_turn(x: int, y: int, k: int)
    requires
        0 <= k < 8,
    ensures
        k % 2 == 0 ==> sector_dot(x, y, (k + 1) % 8) == sector_dot(x, y, k) + (-sector_cross(
            x,
            y,
            k,
        )) && sector_cross(x, y, (k + 1) % 8) == sector_dot(x, y, k) + sector_cross(x, y, k),
        k % 2 == 1 ==> 2 * sector_dot(x, y, (k + 1) % 8) == sector_dot(x, y, k) + (-sector_cross(
            x,
            y,
            k,
        )) && 2 * sector_cross(x, y, (k + 1) % 8) == sector_dot(x, y, k) + sector_cross(x, y, k),
{
    if k == 0 {
        assert(sector_dot(x, y, 1) == sector_dot(x, y, 0) - sector_cross(x, y, 0));
        assert(sector_cross(x, y, 1) == sector_dot(x, y, 0) + sector_cross(x, y, 0));
    } else if k == 1 {
        assert(2 * sector_dot(x, y, 2) == sector_dot(x, y, 1) - sector_cross(x, y, 1));
        assert(2 * sector_cross(x, y, 2) == sector_dot(x, y, 1) + sector_cross(x, y, 1));
    } else if k == 2 {
        assert(sector_dot(x, y, 3) == sector_dot(x, y, 2) - sector_cross(x, y, 2));
        assert(sector_cross(x, y, 3) == sector_dot(x, y, 2) + sector_cross(x, y, 2));
    } else if k == 3 {
        assert(2 * sector_dot(x, y, 4) == sector_dot(x, y, 3) - sector_cross(x, y, 3));
        assert(2 * sector_cross(x, y, 4) == sector_dot(x, y, 3) + sector_cross(x, y, 3));
    } else if k == 4 {
        assert(sector_dot(x, y, 5) == sector_dot(x, y, 4) - sector_cross(x, y, 4));
        assert(sector_cross(x, y, 5) == sector_dot(x, y, 4) + sector_cross(x, y, 4));
    } else if k == 5 {
        assert(2 * sector_dot(x, y, 6) == sector_dot(x, y, 5) - sector_cross(x, y, 5));
        assert(2 * sector_cross(x, y, 6) == sector_dot(x, y, 5) + sector_cross(x, y, 5));
    } else if k == 6 {
        assert(center_x(6) == -1 && center_y(6) == 0 && center_x(7) == -1 && center_y(7) == 1);
        assert(sector_dot(x, y, 7) == sector_dot(x, y, 6) - sector_cross(x, y, 6));
        assert(sector_cross(x, y, 7) == sector_dot(x, y, 6) + sector_cross(x, y, 6));
    } else {
        assert(2 * sector_dot(x, y, 0) == sector_dot(x, y, 7) - sector_cross(x, y, 7));
        assert(2 * sector_cross(x, y, 0) == sector_dot(x, y, 7) + sector_cross(x, y, 7));
    }
}

/// Guard band law: a point that has left the dead zone but whose direction
/// lies strictly between octant `k`'s clockwise edge and octant `k + 1`'s
/// counterclockwise edge classifies to no zone at all.
#[verifier::rlimit(100)]
pub proof fn lemma_guard_band(x: int, y: int, k: int)
    requires
        0 <= k < 8,
        !is_center(x, y),
        sector_dot(x, y, k) > 0,
        sector_dot(x, y, (k + 1) % 8) > 0,
        (TAN20_DEN as int) * (-sector_cross(x, y, k)) > (TAN20_NUM as int) * sector_dot(x, y, k),
        (TAN20_DEN as int) * sector_cross(x, y, (k + 1) % 8) > (TAN20_NUM as int) * sector_dot(
            x,
            y,
            (k + 1) % 8,
        ),
    ensures
        zone_of(x, y) == None::<OctantSection>,
{
    let a = sector_dot(x, y, k);
    let b = -sector_cross(x, y, k);
    let m1 = (k + 1) % 8;
    let m2 = (k + 2) % 8;
    let m3 = (k + 3) % 8;
    let m4 = (k + 4) % 8;
    let m5 = (k + 5) % 8;
    let m6 = (k + 6) % 8;
    let m7 = (k + 7) % 8;
    let d1 = sector_dot(x, y, m1);
    let c1 = sector_cross(x, y, m1);
    lemma_eighth_turn(x, y, k);
    lemma_quarter_turn(x, y, k);
    lemma_quarter_turn(x, y, m1);
    lemma_quarter_turn(x, y, m2);
    lemma_quarter_turn(x, y, m3);
    lemma_quarter_turn(x, y, m4);
    lemma_quarter_turn(x, y, m5);
    assert((m1 + 2) % 8 == m3 && (m2 + 2) % 8 == m4 && (m3 + 2) % 8 == m5 && (m4 + 2) % 8 == m6 && (
    m5 + 2) % 8 == m7);
    assert(sector_dot(x, y, m2) == b && sector_cross(x, y, m2) == a);
    assert(sector_dot(x, y, m3) == -c1 && sector_cross(x, y, m3) == d1);
    assert(sector_dot(x, y, m4) == -a && sector_cross(x, y, m4) == b);
    assert(sector_dot(x, y, m5) == -d1 && sector_cross(x, y, m5) == -c1);
    assert(sector_dot(x, y, m6) == -b && sector_cross(x, y, m6) == -a);
    assert(sector_dot(x, y, m7) == c1 && sector_cross(x, y, m7) == -d1);
    let nn = TAN20_NUM as int;
    let dd = TAN20_DEN as int;
    assert(b > 0 && c1 > 0);
    assert(dd * a > nn * b && dd * d1 > nn * c1) by {
        if d1 == a + b && c1 == a - b {
        } else {
            assert(2 * d1 == a + b && 2 * c1 == a - b);
        }
    }
    assert(!in_sector(x, y, k)) by {
        assert(abs_of(-b) == b);
    }
    assert(!in_sector(x, y, m1)) by {
        assert(abs_of(c1) == c1);
    }
    assert(!in_sector(x, y, m2)) by {
        assert(abs_of(a) == a);
    }
    assert(!in_sector(x, y, m3) && !in_sector(x, y, m4) && !in_sector(x, y, m5) && !in_sector(
        x,
        y,
        m6,
    ));
    assert(!in_sector(x, y, m7)) by {
        assert(abs_of(-d1) == d1);
    }
    assert forall|m: int| 0 <= m < 8 implies !in_sector(x, y, m) by {
        let off = if m >= k {
            m - k
        } else {
            m + 8 - k
        };
        assert(m == (k + off) % 8);
        if off == 0 {
            assert(m == k);
        } else if off == 1 {
            assert(m == m1);
        } else if off == 2 {
            assert(m == m2);
        } else if off == 3 {
            assert(m == m3);
        } else if off == 4 {
            assert(m == m4);
        } else if off == 5 {
            assert(m == m5);
        } else if off == 6 {
            assert(m == m6);
        } else {
            assert(m == m7);
        }
    }
}

/// Decides `in_sector` for one octant.
fn sector_test(x: i64, y: i64, k: u8) -> (r: bool)
    requires
        k < 8,
        -32768 <= x <= 32767,
        -32768 <= y <= 32767,
    ensures
        r == in_sector(x as int, y as int, k as int),
{
    let cx: i64 = if 1 <= k && k <= 3 {
        1
    } else if 5 <= k && k <= 7 {
        -1
    } else {
        0
    };
    let cy: i64 = if k == 0 || k == 1 || k == 7 {
        1
    } else if 3 <= k && k <= 5 {
        -1
    } else {
        0
    };
    let dot = cx * x + cy * y;
    let cross = cx * y - cy * x;
    let across = if cross < 0 {
        -cross
    } else {
        cross
    };
    dot > 0 && TAN20_DEN * across <= TAN20_NUM * dot
}

impl XY {
    /// Classifies this stick point, exactly as `zone_of` states.
    pub fn octant(self) -> (r: Option<OctantSection>)
        ensures
            r == zone_of(self.x as int, self.y as int),
    {
        let x = self.x as i64;
        let y = self.y as i64;
        proof {
            assert(0 <= x * x <= 0x4000_0000) by (nonlinear_arith)
                requires
                    -32768 <= x <= 32767,
            ;
            assert(0 <= y * y <= 0x4000_0000) by (nonlinear_arith)
                requires
                    -32768 <= y <= 32767,
            ;
        }
        let ss = x * x + y * y;
        if 25 * ss < 9 * STICK_MAX * STICK_MAX {
            return Some(OctantSection::Center);
        }
        let mut k: u8 = 0;
        while k < 8
            invariant
                k <= 8,
                x == self.x as int,
                y == self.y as int,
                !is_center(x as int, y as int),
                forall|j: int| 0 <= j < k ==> !in_sector(x as int, y as int, j),
            decreases 8 - k,
        {
            if sector_test(x, y, k) {
                return Some(OctantSection::Octant(k));
            }
            k = k + 1;
        }
        None
    }
}

} // verus!
