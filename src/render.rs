//! Range remapping and the layout of the column (perspective) view.
use vstd::prelude::*;
use vstd::arithmetic::div_mod::{lemma_div_by_multiple, lemma_div_is_ordered_by_denominator, lemma_div_is_ordered, lemma_div_pos_is_pos};
use crate::arith::lemma_mul_bound;
use crate::geometry::{direction_ok, Point};
use crate::root::{floor_sqrt, isqrt, lemma_floor_sqrt, lemma_floor_sqrt_monotone, lemma_floor_sqrt_unique};
use crate::visibility::NO_HIT;

verus! {

/// An exact fraction `num / den`, `den` nonzero.
#[derive(Clone, Copy, Debug, PartialEq, Eq, Structural)]
pub struct Frac {
    pub num: i128,
    pub den: i128,
}

/// Largest magnitude of an argument of `change_range`.
pub const REMAP_LIMIT: i128 = 0x100_0000_0000;

/// Numerator of `c + (n / m - a) · (d - c) / (b - a)` over the denominator `remap_den`.
pub open spec fn remap_num(n: int, m: int, a: int, b: int, c: int, d: int) -> int {
    c * (m * (b - a)) + (n - a * m) * (d - c)
}

pub open spec fn remap_den(m: int, a: int, b: int) -> int {
    m * (b - a)
}

/// Maps `x` linearly from the range `[a, b]` onto `[c, d]`, exactly: `a` goes
/// to `c`, `b` to `d`.
pub fn change_range(x: Frac, a: i64, b: i64, c: i64, d: i64) -> (r: Frac)
    requires
        x.den != 0,
        a != b,
        -REMAP_LIMIT <= x.num <= REMAP_LIMIT,
        -REMAP_LIMIT <= x.den <= REMAP_LIMIT,
        -REMAP_LIMIT <= a <= REMAP_LIMIT,
        -REMAP_LIMIT <= b <= REMAP_LIMIT,
        -REMAP_LIMIT <= c <= REMAP_LIMIT,
        -REMAP_LIMIT <= d <= REMAP_LIMIT,
    ensures
        r.num == remap_num(x.num as int, x.den as int, a as int, b as int, c as int, d as int),
        r.den == remap_den(x.den as int, a as int, b as int),
        r.den != 0,
{
    let ghost lim: int = REMAP_LIMIT as int;
    let ba: i128 = b as i128 - a as i128;
    let dc: i128 = d as i128 - c as i128;
    proof {
        lemma_mul_bound(x.den as int, ba as int, lim, 2 * lim);
        lemma_mul_bound(a as int, x.den as int, lim, lim);
    }
    let m: i128 = x.den * ba;
    let shifted: i128 = x.num - a as i128 * x.den;
    proof {
        lemma_mul_bound(c as int, m as int, lim, 2 * lim * lim);
        lemma_mul_bound(shifted as int, dc as int, lim + lim * lim, 2 * lim);
        assert(m != 0) by (nonlinear_arith)
            requires
                m == x.den * ba,
                x.den != 0,
                ba != 0,
        ;
    }
    Frac { num: c as i128 * m + shifted * dc, den: m }
}

/// Remapping from `[a, b]` onto `[c, d]` and back again gives the value that
/// was started from, exactly.
pub proof fn lemma_remap_round_trip(n: int, m: int, a: int, b: int, c: int, d: int)
    requires
        m != 0,
        a != b,
        c != d,
    ensures
        remap_den(remap_den(m, a, b), c, d) != 0,
        remap_num(remap_num(n, m, a, b, c, d), remap_den(m, a, b), c, d, a, b) * m
            == n * remap_den(remap_den(m, a, b), c, d),
{
    let m1 = remap_den(m, a, b);
    let n1 = remap_num(n, m, a, b, c, d);
    let m2 = remap_den(m1, c, d);
    assert(m1 != 0 && m2 != 0) by (nonlinear_arith)
        requires
            m1 == m * (b - a),
            m2 == m1 * (d - c),
            m != 0,
            a != b,
            c != d,
    ;
    assert(n1 - c * m1 == (n - a * m) * (d - c));
    let z = remap_num(n1, m1, c, d, a, b);
    assert(z == a * m2 + (n - a * m) * (d - c) * (b - a)) by (nonlinear_arith)
        requires
            z == a * (m1 * (d - c)) + (n1 - c * m1) * (b - a),
            m2 == m1 * (d - c),
            n1 - c * m1 == (n - a * m) * (d - c),
    ;
    assert(z == n * (d - c) * (b - a)) by (nonlinear_arith)
        requires
            z == a * m2 + (n - a * m) * (d - c) * (b - a),
            m2 == m * (b - a) * (d - c),
    ;
    assert(z * m == n * m2) by (nonlinear_arith)
        requires
            z == n * (d - c) * (b - a),
            m2 == m * (b - a) * (d - c),
    ;
}

/// The screen geometry of the column view: `width` by `height` pixels split
/// into `rays` columns; a depth of `max_depth` or more gives an empty column.
#[derive(Clone, Copy, Debug, PartialEq, Eq, Structural)]
pub struct Screen {
    pub width: i64,
    pub height: i64,
    pub rays: i64,
    pub max_depth: i64,
}

/// Largest screen dimension or depth range of a `Screen`.
pub const SCREEN_LIMIT: i64 = 1048576;

pub open spec fn screen_ok(v: Screen) -> bool {
    &&& 0 < v.rays <= v.width <= SCREEN_LIMIT
    &&& 0 <= v.height <= SCREEN_LIMIT
    &&& 0 < v.max_depth <= SCREEN_LIMIT
}

/// One shaded bar of the column view: its top-left corner, size and opacity.
#[derive(Clone, Copy, Debug, PartialEq, Eq, Structural)]
pub struct Column {
    pub x: i64,
    pub y: i64,
    pub width: i64,
    pub height: i64,
    pub alpha: u8,
}

/// A distance clamped to the depth range `[0, max]`.
pub open spec fn clamp_depth(dist: int, max: int) -> int {
    if dist > max {
        max
    } else {
        dist
    }
}

/// Bar height: `[0, max_depth]` mapped linearly onto `[height, 0]`, rounded down.
pub open spec fn column_height(v: Screen, dist: int) -> int {
    (v.height * (v.max_depth - clamp_depth(dist, v.max_depth as int))) / (v.max_depth as int)
}

/// Bar opacity: the squared depth range mapped linearly onto `[255, 0]`, rounded down.
pub open spec fn column_alpha(v: Screen, dist: int) -> int {
    let depth = clamp_depth(dist, v.max_depth as int);
    (255 * (v.max_depth * v.max_depth - depth * depth)) / (v.max_depth * v.max_depth)
}

/// The bar for ray `i` at distance `dist`: `width / rays` pixels wide,
/// centred at `i * (width / rays)` and on the horizontal midline.
pub open spec fn column_spec(v: Screen, i: int, dist: int) -> Column {
    let w = v.width / v.rays;
    let h = column_height(v, dist);
    Column {
        x: (i * w - w / 2) as i64,
        y: (v.height / 2 - h / 2) as i64,
        width: w as i64,
        height: h as i64,
        alpha: column_alpha(v, dist) as u8,
    }
}

/// `k * part / whole` lies in `[0, k]` when `part` lies in `[0, whole]`.
proof fn lemma_share(k: int, part: int, whole: int)
    requires
        0 <= k,
        0 <= part <= whole,
        0 < whole,
    ensures
        0 <= (k * part) / whole <= k,
{
    assert(0 <= k * part <= k * whole) by (nonlinear_arith)
        requires
            0 <= k,
            0 <= part <= whole,
    ;
    lemma_div_pos_is_pos(k * part, whole);
    lemma_div_is_ordered(k * part, k * whole, whole);
    lemma_div_by_multiple(k, whole);
}

/// A fraction with a nonnegative numerator and a positive denominator, rounded down.
fn floor_of(f: Frac) -> (r: i128)
    requires
        0 <= f.num,
        0 < f.den,
    ensures
        r == f.num / f.den,
{
    (f.num as u128 / f.den as u128) as i128
}

/// The bar that stands for ray `i` whose distance is `dist`; distances beyond
/// the depth range, `NO_HIT` among them, give an empty, transparent bar.
pub fn ray_column(v: &Screen, i: i64, dist: u64) -> (r: Column)
    requires
        screen_ok(*v),
        0 <= i < v.rays,
    ensures
        r == column_spec(*v, i as int, dist as int),
        0 <= r.height <= v.height,
        0 <= column_alpha(*v, dist as int) <= 255,
{
    let max: i64 = v.max_depth;
    let depth: i64 = if dist > max as u64 {
        max
    } else {
        dist as i64
    };
    assert(depth * depth <= max * max) by (nonlinear_arith)
        requires
            0 <= depth <= max,
    ;
    assert(0 < max * max <= 0x100_0000_0000) by (nonlinear_arith)
        requires
            0 < max <= SCREEN_LIMIT,
    ;
    let hf = change_range(Frac { num: depth as i128, den: 1 }, 0, max, v.height, 0);
    let af = change_range(
        Frac { num: (depth * depth) as i128, den: 1 },
        0,
        max * max,
        255,
        0,
    );
    proof {
        let (hh, mm, dd) = (v.height as int, max as int, depth as int);
        assert(hf.num == hh * (mm - dd) && hf.den == mm) by (nonlinear_arith)
            requires
                hf.num == hh * (1 * (mm - 0)) + (dd - 0 * 1) * (0 - hh),
                hf.den == 1 * (mm - 0),
        ;
        assert(af.num == 255 * (mm * mm - dd * dd) && af.den == mm * mm) by (nonlinear_arith)
            requires
                af.num == 255 * (1 * (mm * mm - 0)) + (dd * dd - 0 * 1) * (0 - 255),
                af.den == 1 * (mm * mm - 0),
        ;
        lemma_share(hh, mm - dd, mm);
        lemma_share(255, mm * mm - dd * dd, mm * mm);
    }
    let h: i64 = floor_of(hf) as i64;
    let alpha: u8 = floor_of(af) as u8;
    let w: i64 = v.width / v.rays;
    assert(0 <= i * w <= SCREEN_LIMIT * SCREEN_LIMIT) by (nonlinear_arith)
        requires
            0 <= i <= SCREEN_LIMIT,
            0 <= w <= SCREEN_LIMIT,
    ;
    Column { x: i * w - w / 2, y: v.height / 2 - h / 2, width: w, height: h, alpha }
}

/// Squared length of a direction.
pub open spec fn len2(d: Point) -> int {
    d.x * d.x + d.y * d.y
}

/// Dot product of two directions.
pub open spec fn dot(a: Point, b: Point) -> int {
    a.x * b.x + a.y * b.y
}

/// The perpendicular distance to the projection plane of `facing` for a ray
/// along `d` at distance `dist`: `dist · cos(angle(d, facing))`, rounded down.
/// A ray at a right angle or more to `facing` gives 0; `NO_HIT` stays.
pub open spec fn corrected(dist: int, d: Point, facing: Point) -> int {
    if dist == NO_HIT as int {
        NO_HIT as int
    } else if dot(d, facing) <= 0 {
        0
    } else {
        (dist * dot(d, facing)) / floor_sqrt(len2(d) * len2(facing))
    }
}

/// Bounds on a dot product and on the product of the squared lengths.
proof fn lemma_dot_bounds(d: Point, f: Point)
    requires
        direction_ok(d),
        direction_ok(f),
    ensures
        0 <= len2(d) <= 0x2000_0000,
        0 <= len2(f) <= 0x2000_0000,
        0 <= len2(d) * len2(f) <= 0x400_0000_0000_0000,
        0 <= d.x * d.x <= 0x1000_0000,
        0 <= d.y * d.y <= 0x1000_0000,
        0 <= f.x * f.x <= 0x1000_0000,
        0 <= f.y * f.y <= 0x1000_0000,
        -0x1000_0000 <= d.x * f.x <= 0x1000_0000,
        -0x1000_0000 <= d.y * f.y <= 0x1000_0000,
        dot(d, f) <= 0x2000_0000,
        dot(d, f) > 0 ==> dot(d, f) <= floor_sqrt(len2(d) * len2(f)),
{
    let (dx, dy, fx, fy) = (d.x as int, d.y as int, f.x as int, f.y as int);
    lemma_mul_bound(dx, dx, 0x4000, 0x4000);
    lemma_mul_bound(dy, dy, 0x4000, 0x4000);
    lemma_mul_bound(fx, fx, 0x4000, 0x4000);
    lemma_mul_bound(fy, fy, 0x4000, 0x4000);
    lemma_mul_bound(dx, fx, 0x4000, 0x4000);
    lemma_mul_bound(dy, fy, 0x4000, 0x4000);
    assert(dx * dx >= 0 && dy * dy >= 0 && fx * fx >= 0 && fy * fy >= 0) by (nonlinear_arith);
    lemma_mul_bound(len2(d), len2(f), 0x2000_0000, 0x2000_0000);
    assert(len2(d) * len2(f) >= 0) by (nonlinear_arith)
        requires
            len2(d) >= 0,
            len2(f) >= 0,
    ;
    let p = dot(d, f);
    if p > 0 {
        let (a, b, e, g) = (dx * fx, dy * fy, dx * fy, dy * fx);
        assert(p * p == a * a + 2 * (a * b) + b * b) by (nonlinear_arith)
            requires
                p == a + b,
        ;
        assert(a * b == e * g) by (nonlinear_arith)
            requires
                a == dx * fx,
                b == dy * fy,
                e == dx * fy,
                g == dy * fx,
        ;
        let (xx, yy, uu, vv) = (dx * dx, dy * dy, fx * fx, fy * fy);
        assert((xx + yy) * (uu + vv) == xx * uu + xx * vv + yy * uu + yy * vv) by (nonlinear_arith);
        assert(a * a == xx * uu) by (nonlinear_arith)
            requires
                a == dx * fx,
                xx == dx * dx,
                uu == fx * fx,
        ;
        assert(e * e == xx * vv) by (nonlinear_arith)
            requires
                e == dx * fy,
                xx == dx * dx,
                vv == fy * fy,
        ;
        assert(g * g == yy * uu) by (nonlinear_arith)
            requires
                g == dy * fx,
                yy == dy * dy,
                uu == fx * fx,
        ;
        assert(b * b == yy * vv) by (nonlinear_arith)
            requires
                b == dy * fy,
                yy == dy * dy,
                vv == fy * fy,
        ;
        assert(len2(d) * len2(f) == a * a + e * e + g * g + b * b);
        assert(e * e + g * g - 2 * (e * g) == (e - g) * (e - g)) by (nonlinear_arith);
        assert((e - g) * (e - g) >= 0) by (nonlinear_arith);
        assert(p * p < (p + 1) * (p + 1)) by (nonlinear_arith)
            requires
                p > 0,
        ;
        lemma_floor_sqrt_unique(p * p, p);
        lemma_floor_sqrt_monotone(p * p, len2(d) * len2(f));
    }
}

/// Fish-eye correction of one distance.
pub fn correct_fisheye(dist: u64, d: &Point, facing: &Point) -> (r: u64)
    requires
        dist < 0x400_0000_0000_0000 || dist == NO_HIT,
        direction_ok(*d),
        direction_ok(*facing),
    ensures
        r == corrected(dist as int, *d, *facing),
        r <= dist,
{
    if dist == NO_HIT {
        return NO_HIT;
    }
    proof {
        lemma_dot_bounds(*d, *facing);
    }
    let p: i64 = d.x * facing.x + d.y * facing.y;
    if p <= 0 {
        return 0;
    }
    let ld: i64 = d.x * d.x + d.y * d.y;
    let lf: i64 = facing.x * facing.x + facing.y * facing.y;
    let norm: u64 = isqrt((ld * lf) as u128);
    assert(dist * p <= 0x800_0000_0000_0000_0000_0000) by (nonlinear_arith)
        requires
            0 <= dist < 0x400_0000_0000_0000,
            0 < p <= 0x2000_0000,
    ;
    let prod: u128 = dist as u128 * p as u128;
    proof {
        lemma_div_is_ordered_by_denominator(prod as int, p as int, norm as int);
        lemma_div_by_multiple(dist as int, p as int);
    }
    (prod / norm as u128) as u64
}

/// The fish-eye corrected distances of a frame, ray by ray.
pub fn perspective_distances(distances: &Vec<u64>, directions: &Vec<Point>, facing: &Point) -> (r: Vec<u64>)
    requires
        distances@.len() == directions@.len(),
        forall|i: int|
            0 <= i < distances@.len() ==> #[trigger] distances@[i] < 0x400_0000_0000_0000
                || distances@[i] == NO_HIT,
        forall|i: int| 0 <= i < directions@.len() ==> direction_ok(#[trigger] directions@[i]),
        direction_ok(*facing),
    ensures
        r@.len() == distances@.len(),
        forall|i: int|
            0 <= i < r@.len() ==> #[trigger] r@[i] == corrected(
                distances@[i] as int,
                directions@[i],
                *facing,
            ),
{
    let mut r: Vec<u64> = Vec::new();
    let mut i: usize = 0;
    while i < distances.len()
        invariant
            i <= distances@.len(),
            r@.len() == i,
            distances@.len() == directions@.len(),
            forall|k: int|
                0 <= k < distances@.len() ==> #[trigger] distances@[k] < 0x400_0000_0000_0000
                    || distances@[k] == NO_HIT,
            forall|k: int| 0 <= k < directions@.len() ==> direction_ok(#[trigger] directions@[k]),
            direction_ok(*facing),
            forall|k: int|
                0 <= k < i ==> #[trigger] r@[k] == corrected(
                    distances@[k] as int,
                    directions@[k],
                    *facing,
                ),
        decreases distances.len() - i,
    {
        let c = correct_fisheye(distances[i], &directions[i], facing);
        r.push(c);
        i = i + 1;
    }
    r
}

/// Along the facing direction itself the correction changes nothing.
pub proof fn lemma_center_ray_unchanged(dist: int, facing: Point)
    requires
        0 <= dist,
        direction_ok(facing),
        facing != (Point { x: 0, y: 0 }),
    ensures
        corrected(dist, facing, facing) == dist,
{
    let l = len2(facing);
    assert(l > 0) by (nonlinear_arith)
        requires
            l == facing.x * facing.x + facing.y * facing.y,
            facing.x != 0 || facing.y != 0,
    ;
    assert(dot(facing, facing) == l);
    assert(l * l < (l + 1) * (l + 1)) by (nonlinear_arith)
        requires
            l > 0,
    ;
    lemma_floor_sqrt_unique(l * l, l);
    lemma_div_by_multiple(dist, l);
}

/// The bars of the column view, one per ray in order.
pub fn columns(v: &Screen, depths: &Vec<u64>) -> (r: Vec<Column>)
    requires
        screen_ok(*v),
        depths@.len() <= v.rays,
    ensures
        r@.len() == depths@.len(),
        forall|i: int| 0 <= i < r@.len() ==> #[trigger] r@[i] == column_spec(*v, i, depths@[i] as int),
{
    let mut r: Vec<Column> = Vec::new();
    let mut i: usize = 0;
    while i < depths.len()
        invariant
            i <= depths@.len() <= v.rays,
            screen_ok(*v),
            r@.len() == i,
            forall|k: int| 0 <= k < i ==> #[trigger] r@[k] == column_spec(*v, k, depths@[k] as int),
        decreases depths.len() - i,
    {
        let c = ray_column(v, i as i64, depths[i]);
        r.push(c);
        i = i + 1;
    }
    r
}

} // verus!
