//! Points, wall segments and the exact ray/segment intersection solver.
use vstd::prelude::*;
use crate::arith::lemma_mul_bound;

verus! {

/// Largest magnitude of a position coordinate (player, wall endpoints).
pub const COORD_LIMIT: i64 = 1048576;

/// Largest magnitude of a ray direction component.
pub const DIR_LIMIT: i64 = 16384;

/// A point or vector on the integer grid.
#[derive(Clone, Copy, Debug, PartialEq, Eq, Structural)]
pub struct Point {
    pub x: i64,
    pub y: i64,
}

/// A wall: the segment from `p1` to `p2`.
#[derive(Clone, Copy, Debug, PartialEq, Eq, Structural)]
pub struct Line {
    pub p1: Point,
    pub p2: Point,
}

/// A ray/segment hit. The hit point is `(x / den, y / den)`; it lies at
/// parameter `seg / den` along the segment and `ray / den` along the ray.
#[derive(Clone, Copy, Debug, PartialEq, Eq, Structural)]
pub struct Hit {
    pub x: i64,
    pub y: i64,
    pub den: i64,
    pub seg: i64,
    pub ray: i64,
}

pub open spec fn position_ok(p: Point) -> bool {
    -COORD_LIMIT <= p.x <= COORD_LIMIT && -COORD_LIMIT <= p.y <= COORD_LIMIT
}

pub open spec fn direction_ok(d: Point) -> bool {
    -DIR_LIMIT <= d.x <= DIR_LIMIT && -DIR_LIMIT <= d.y <= DIR_LIMIT
}

pub open spec fn line_ok(l: Line) -> bool {
    position_ok(l.p1) && position_ok(l.p2)
}

/// The two-dimensional cross product `a.x * b.y - a.y * b.x`.
pub open spec fn cross(ax: int, ay: int, bx: int, by: int) -> int {
    ax * by - ay * bx
}

/// `d × (p2 - p1)`: zero when the ray runs parallel to the segment.
pub open spec fn denom_of(d: Point, l: Line) -> int {
    cross(d.x as int, d.y as int, l.p2.x - l.p1.x, l.p2.y - l.p1.y)
}

/// `(p1 - o) × d`: the segment parameter, scaled by `denom_of`.
pub open spec fn seg_num(o: Point, d: Point, l: Line) -> int {
    cross(l.p1.x - o.x, l.p1.y - o.y, d.x as int, d.y as int)
}

/// `(p1 - o) × (p2 - p1)`: the ray parameter, scaled by `denom_of`.
pub open spec fn ray_num(o: Point, d: Point, l: Line) -> int {
    cross(l.p1.x - o.x, l.p1.y - o.y, l.p2.x - l.p1.x, l.p2.y - l.p1.y)
}

/// The sign that makes the common denominator positive.
pub open spec fn orient(d: Point, l: Line) -> int {
    if denom_of(d, l) < 0 { -1 } else { 1 }
}

/// Whether the ray from `o` along `d` meets the open segment strictly ahead of `o`.
pub open spec fn hits(o: Point, d: Point, l: Line) -> bool {
    let den = orient(d, l) * denom_of(d, l);
    let s = orient(d, l) * seg_num(o, d, l);
    let u = orient(d, l) * ray_num(o, d, l);
    denom_of(d, l) != 0 && 0 < s && s < den && u > 0
}

/// The result of intersecting the ray from `o` along `d` with the wall `l`.
pub open spec fn intersection(o: Point, d: Point, l: Line) -> Option<Hit> {
    let den = orient(d, l) * denom_of(d, l);
    let s = orient(d, l) * seg_num(o, d, l);
    let u = orient(d, l) * ray_num(o, d, l);
    if hits(o, d, l) {
        Some(
            Hit {
                x: (l.p1.x * den + s * (l.p2.x - l.p1.x)) as i64,
                y: (l.p1.y * den + s * (l.p2.y - l.p1.y)) as i64,
                den: den as i64,
                seg: s as i64,
                ray: u as i64,
            },
        )
    } else {
        None
    }
}

/// The point lies at `seg / den` of the way from `p1` to `p2`, strictly inside.
pub open spec fn on_segment(h: Hit, l: Line) -> bool {
    &&& 0 < h.seg < h.den
    &&& h.x == l.p1.x * h.den + h.seg * (l.p2.x - l.p1.x)
    &&& h.y == l.p1.y * h.den + h.seg * (l.p2.y - l.p1.y)
}

/// The magnitudes that any hit of the solver stays within.
pub open spec fn hit_bounded(h: Hit) -> bool {
    0 < h.den <= 0x10_0000_0000 && 0 < h.ray <= 0x800_0000_0000
}

/// The point lies at `ray / den` along the ray, strictly ahead of the origin.
pub open spec fn ahead_on_ray(h: Hit, o: Point, d: Point) -> bool {
    &&& h.den > 0
    &&& h.ray > 0
    &&& h.x == o.x * h.den + h.ray * d.x
    &&& h.y == o.y * h.den + h.ray * d.y
}

impl Line {
    /// The wall from `(p1_x, p1_y)` to `(p2_x, p2_y)`.
    pub fn new(p1_x: i64, p1_y: i64, p2_x: i64, p2_y: i64) -> (r: Line)
        ensures
            r.p1 == (Point { x: p1_x, y: p1_y }),
            r.p2 == (Point { x: p2_x, y: p2_y }),
    {
        Line { p1: Point { x: p1_x, y: p1_y }, p2: Point { x: p2_x, y: p2_y } }
    }
}

/// `w * (d × e) + (w × d) * e == (w × e) * d`, one coordinate at a time.
proof fn lemma_cross_identity(wx: int, wy: int, dx: int, dy: int, ex: int, ey: int)
    ensures
        wx * cross(dx, dy, ex, ey) + cross(wx, wy, dx, dy) * ex == cross(wx, wy, ex, ey) * dx,
        wy * cross(dx, dy, ex, ey) + cross(wx, wy, dx, dy) * ey == cross(wx, wy, ex, ey) * dy,
{
    assert(wx * (dx * ey - dy * ex) == wx * dx * ey - wx * dy * ex) by (nonlinear_arith);
    assert((wx * dy - wy * dx) * ex == wx * dy * ex - wy * dx * ex) by (nonlinear_arith);
    assert((wx * ey - wy * ex) * dx == wx * dx * ey - wy * dx * ex) by (nonlinear_arith);
    assert(wy * (dx * ey - dy * ex) == wy * dx * ey - wy * dy * ex) by (nonlinear_arith);
    assert((wx * dy - wy * dx) * ey == wx * dy * ey - wy * dx * ey) by (nonlinear_arith);
    assert((wx * ey - wy * ex) * dy == wx * dy * ey - wy * dy * ex) by (nonlinear_arith);
}

/// Scaling both sides of `a * den + s * e == u * d` by a common factor.
proof fn lemma_scaled(p: int, q: int, a: int, den: int, s: int, e: int, u: int, d: int, k: int)
    requires
        a == p - q,
        a * den + s * e == u * d,
    ensures
        p * (k * den) + (k * s) * e == q * (k * den) + (k * u) * d,
{
    assert(p * (k * den) == k * (p * den)) by (nonlinear_arith);
    assert(q * (k * den) == k * (q * den)) by (nonlinear_arith);
    assert((k * s) * e == k * (s * e)) by (nonlinear_arith);
    assert((k * u) * d == k * (u * d)) by (nonlinear_arith);
    assert(p * den == a * den + q * den) by (nonlinear_arith)
        requires
            a == p - q,
    ;
    assert(k * (p * den + s * e) == k * (q * den + u * d));
    assert(k * (p * den + s * e) == k * (p * den) + k * (s * e)) by (nonlinear_arith);
    assert(k * (q * den + u * d) == k * (q * den) + k * (u * d)) by (nonlinear_arith);
}

/// Whatever a hit reports lies strictly inside the segment and strictly ahead
/// of the origin along the ray.
pub proof fn lemma_hit_on_segment_and_ray(o: Point, d: Point, l: Line)
    requires
        position_ok(o),
        direction_ok(d),
        line_ok(l),
    ensures
        intersection(o, d, l) matches Some(h) ==> on_segment(h, l) && ahead_on_ray(h, o, d),
{
    if hits(o, d, l) {
        lemma_solver_bounds(o, d, l);
        let den = denom_of(d, l);
        let k = orient(d, l);
        let wx = l.p1.x - o.x;
        let wy = l.p1.y - o.y;
        let ex = l.p2.x - l.p1.x;
        let ey = l.p2.y - l.p1.y;
        lemma_cross_identity(wx, wy, d.x as int, d.y as int, ex, ey);
        let s = seg_num(o, d, l);
        let u = ray_num(o, d, l);
        lemma_scaled(l.p1.x as int, o.x as int, wx, den, s, ex, u, d.x as int, k);
        lemma_scaled(l.p1.y as int, o.y as int, wy, den, s, ey, u, d.y as int, k);
    }
}

/// Magnitude bounds of every quantity the solver computes.
proof fn lemma_solver_bounds(o: Point, d: Point, l: Line)
    requires
        position_ok(o),
        direction_ok(d),
        line_ok(l),
    ensures
        -0x8_0000_0000 <= d.x * (l.p2.y - l.p1.y) <= 0x8_0000_0000,
        -0x8_0000_0000 <= d.y * (l.p2.x - l.p1.x) <= 0x8_0000_0000,
        -0x8_0000_0000 <= (l.p1.x - o.x) * d.y <= 0x8_0000_0000,
        -0x8_0000_0000 <= (l.p1.y - o.y) * d.x <= 0x8_0000_0000,
        -0x400_0000_0000 <= (l.p1.x - o.x) * (l.p2.y - l.p1.y) <= 0x400_0000_0000,
        -0x400_0000_0000 <= (l.p1.y - o.y) * (l.p2.x - l.p1.x) <= 0x400_0000_0000,
        -0x10_0000_0000 <= denom_of(d, l) <= 0x10_0000_0000,
        -0x10_0000_0000 <= seg_num(o, d, l) <= 0x10_0000_0000,
        -0x800_0000_0000 <= ray_num(o, d, l) <= 0x800_0000_0000,
        hits(o, d, l) ==> {
            let k = orient(d, l);
            let den = k * denom_of(d, l);
            let s = k * seg_num(o, d, l);
            &&& -0x100_0000_0000_0000 <= l.p1.x * den <= 0x100_0000_0000_0000
            &&& -0x100_0000_0000_0000 <= l.p1.y * den <= 0x100_0000_0000_0000
            &&& -0x200_0000_0000_0000 <= s * (l.p2.x - l.p1.x) <= 0x200_0000_0000_0000
            &&& -0x200_0000_0000_0000 <= s * (l.p2.y - l.p1.y) <= 0x200_0000_0000_0000
            &&& -0x400_0000_0000_0000 <= l.p1.x * den + s * (l.p2.x - l.p1.x) <= 0x400_0000_0000_0000
            &&& -0x400_0000_0000_0000 <= l.p1.y * den + s * (l.p2.y - l.p1.y) <= 0x400_0000_0000_0000
        },
{
    let b: int = 0x20_0000;
    lemma_mul_bound(d.x as int, l.p2.y - l.p1.y, DIR_LIMIT as int, b);
    lemma_mul_bound(d.y as int, l.p2.x - l.p1.x, DIR_LIMIT as int, b);
    lemma_mul_bound(l.p1.x - o.x, d.y as int, b, DIR_LIMIT as int);
    lemma_mul_bound(l.p1.y - o.y, d.x as int, b, DIR_LIMIT as int);
    lemma_mul_bound(l.p1.x - o.x, l.p2.y - l.p1.y, b, b);
    lemma_mul_bound(l.p1.y - o.y, l.p2.x - l.p1.x, b, b);
    if hits(o, d, l) {
        let k = orient(d, l);
        let den = k * denom_of(d, l);
        let s = k * seg_num(o, d, l);
        lemma_mul_bound(l.p1.x as int, den, COORD_LIMIT as int, 0x10_0000_0000);
        lemma_mul_bound(l.p1.y as int, den, COORD_LIMIT as int, 0x10_0000_0000);
        lemma_mul_bound(s, l.p2.x - l.p1.x, 0x10_0000_0000, b);
        lemma_mul_bound(s, l.p2.y - l.p1.y, 0x10_0000_0000, b);
    }
}

/// Intersects the ray from `origin` along `direction` with the segment `line`.
/// Parallel rays, segment endpoints and hits behind the origin give `None`.
pub fn check_intersect(origin: &Point, direction: &Point, line: &Line) -> (r: Option<Hit>)
    requires
        position_ok(*origin),
        direction_ok(*direction),
        line_ok(*line),
    ensures
        r == intersection(*origin, *direction, *line),
        r matches Some(h) ==> on_segment(h, *line) && ahead_on_ray(h, *origin, *direction)
            && hit_bounded(h),
{
    proof {
        lemma_solver_bounds(*origin, *direction, *line);
        lemma_hit_on_segment_and_ray(*origin, *direction, *line);
    }
    let ex: i64 = line.p2.x - line.p1.x;
    let ey: i64 = line.p2.y - line.p1.y;
    let wx: i64 = line.p1.x - origin.x;
    let wy: i64 = line.p1.y - origin.y;
    let denom: i64 = direction.x * ey - direction.y * ex;
    let sn: i64 = wx * direction.y - wy * direction.x;
    let un: i64 = wx * ey - wy * ex;
    if denom == 0 {
        return None;
    }
    let (den, s, u) = if denom < 0 {
        (-denom, -sn, -un)
    } else {
        (denom, sn, un)
    };
    if 0 < s && s < den && u > 0 {
        Some(Hit { x: line.p1.x * den + s * ex, y: line.p1.y * den + s * ey, den, seg: s, ray: u })
    } else {
        None
    }
}

} // verus!
