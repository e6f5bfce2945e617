//! The visibility pass: the nearest wall hit along every ray of a fan.
use vstd::prelude::*;
use vstd::arithmetic::div_mod::lemma_div_is_ordered_by_denominator;
use crate::geometry::{check_intersect, COORD_LIMIT, direction_ok, hit_bounded, intersection, line_ok, position_ok, Hit, Line, Point};
use crate::arith::lemma_mul_bound;
use crate::root::{floor_sqrt, isqrt};

verus! {

/// The distance recorded for a ray that meets no wall; larger than any real one.
pub const NO_HIT: u64 = 0xffff_ffff_ffff_ffff;

/// The Euclidean distance from the ray's origin to the hit, rounded down:
/// the hit lies `ray / den` lengths of `d` ahead, so its squared distance is
/// `ray² · |d|² / den²`.
pub open spec fn hit_distance(h: Hit, d: Point) -> int {
    floor_sqrt((h.ray * h.ray * (d.x * d.x + d.y * d.y)) / (h.den * h.den))
}

/// The nearest hit over `walls` with its distance; on equal distances the
/// earlier wall is kept.
pub open spec fn nearest(o: Point, d: Point, walls: Seq<Line>) -> Option<(Hit, int)>
    decreases walls.len(),
{
    if walls.len() == 0 {
        None
    } else {
        let prev = nearest(o, d, walls.drop_last());
        match intersection(o, d, walls.last()) {
            None => prev,
            Some(h) => {
                let dh = hit_distance(h, d);
                match prev {
                    Some(p) => if dh < p.1 {
                        Some((h, dh))
                    } else {
                        prev
                    },
                    None => Some((h, dh)),
                }
            },
        }
    }
}

/// The point recorded for a ray: the nearest hit, if any.
pub open spec fn ray_point(o: Point, d: Point, walls: Seq<Line>) -> Option<Hit> {
    match nearest(o, d, walls) {
        Some(p) => Some(p.0),
        None => None,
    }
}

/// The distance recorded for a ray: that of the nearest hit, or `NO_HIT`.
pub open spec fn ray_distance(o: Point, d: Point, walls: Seq<Line>) -> int {
    match nearest(o, d, walls) {
        Some(p) => p.1,
        None => NO_HIT as int,
    }
}

pub open spec fn all_walls_ok(walls: Seq<Line>) -> bool {
    forall|k: int| 0 <= k < walls.len() ==> line_ok(#[trigger] walls[k])
}

pub open spec fn all_directions_ok(dirs: Seq<Point>) -> bool {
    forall|i: int| 0 <= i < dirs.len() ==> direction_ok(#[trigger] dirs[i])
}

/// The four walls along the border of the `[0, width] × [0, height]` viewport.
pub fn boundary_walls(width: i64, height: i64) -> (r: Vec<Line>)
    requires
        0 <= width <= COORD_LIMIT,
        0 <= height <= COORD_LIMIT,
    ensures
        r@ == seq![
            Line { p1: Point { x: 0, y: 0 }, p2: Point { x: width, y: 0 } },
            Line { p1: Point { x: width, y: 0 }, p2: Point { x: width, y: height } },
            Line { p1: Point { x: width, y: height }, p2: Point { x: 0, y: height } },
            Line { p1: Point { x: 0, y: height }, p2: Point { x: 0, y: 0 } },
        ],
        all_walls_ok(r@),
{
    let r = vec![
        Line::new(0, 0, width, 0),
        Line::new(width, 0, width, height),
        Line::new(width, height, 0, height),
        Line::new(0, height, 0, 0),
    ];
    assert(r@ =~= seq![
        Line { p1: Point { x: 0, y: 0 }, p2: Point { x: width, y: 0 } },
        Line { p1: Point { x: width, y: 0 }, p2: Point { x: width, y: height } },
        Line { p1: Point { x: width, y: height }, p2: Point { x: 0, y: height } },
        Line { p1: Point { x: 0, y: height }, p2: Point { x: 0, y: 0 } },
    ]);
    r
}

/// The per-frame buffers: one hit point and one distance per ray.
pub struct Frame {
    pub points: Vec<Option<Hit>>,
    pub distances: Vec<u64>,
}

/// `f` holds, for every direction in order, the nearest hit and its distance.
pub open spec fn is_pass_of(f: Frame, player: Point, dirs: Seq<Point>, walls: Seq<Line>) -> bool {
    &&& f.points@.len() == dirs.len()
    &&& f.distances@.len() == dirs.len()
    &&& forall|i: int|
        0 <= i < dirs.len() ==> #[trigger] f.points@[i] == ray_point(player, dirs[i], walls)
            && f.distances@[i] == ray_distance(player, dirs[i], walls)
}

/// The distance recorded for a ray is the minimum, over the walls that the
/// ray hits, of the distance to that wall's hit, and the recorded point is
/// that hit; a ray that hits no wall records no point and `NO_HIT`.
pub proof fn lemma_nearest_is_minimum(o: Point, d: Point, walls: Seq<Line>)
    ensures
        ray_point(o, d, walls) is None <==> forall|k: int|
            0 <= k < walls.len() ==> #[trigger] intersection(o, d, walls[k]) is None,
        ray_point(o, d, walls) is None ==> ray_distance(o, d, walls) == NO_HIT,
        ray_point(o, d, walls) matches Some(h) ==> exists|k: int|
            0 <= k < walls.len() && #[trigger] intersection(o, d, walls[k]) == Some(h)
                && ray_distance(o, d, walls) == hit_distance(h, d),
        forall|k: int|
            0 <= k < walls.len() ==> (#[trigger] intersection(o, d, walls[k]) matches Some(h2)
                ==> ray_distance(o, d, walls) <= hit_distance(h2, d)),
    decreases walls.len(),
{
    if walls.len() > 0 {
        let s = walls.drop_last();
        let n = walls.len() - 1;
        lemma_nearest_is_minimum(o, d, s);
        assert(forall|k: int| 0 <= k < n ==> #[trigger] walls[k] == s[k]);
        assert(walls.last() == walls[n]);
        if let Some(h) = ray_point(o, d, walls) {
            if ray_point(o, d, walls) == ray_point(o, d, s) {
                let k = choose|k: int|
                    0 <= k < s.len() && #[trigger] intersection(o, d, s[k]) == Some(h)
                        && ray_distance(o, d, s) == hit_distance(h, d);
                assert(intersection(o, d, walls[k]) == Some(h));
            } else {
                assert(intersection(o, d, walls[n]) == Some(h));
            }
        }
    }
}

/// The visibility pass is a function of its inputs: two frames computed from
/// the same player, directions and walls hold the same points and distances.
pub proof fn lemma_pass_deterministic(
    f1: Frame,
    f2: Frame,
    player: Point,
    dirs: Seq<Point>,
    walls: Seq<Line>,
)
    requires
        is_pass_of(f1, player, dirs, walls),
        is_pass_of(f2, player, dirs, walls),
    ensures
        f1.points@ == f2.points@,
        f1.distances@ == f2.distances@,
{
    assert forall|i: int| 0 <= i < dirs.len() implies f1.points@[i] == f2.points@[i]
        && f1.distances@[i] == f2.distances@[i] by {
        assert(f1.points@[i] == ray_point(player, dirs[i], walls));
        assert(f2.points@[i] == ray_point(player, dirs[i], walls));
    }
    assert(f1.points@ =~= f2.points@);
    assert(f1.distances@ =~= f2.distances@);
}

/// The distance from the origin to a hit, rounded down.
pub fn distance_to_hit(h: &Hit, d: &Point) -> (r: u64)
    requires
        hit_bounded(*h),
        direction_ok(*d),
    ensures
        r == hit_distance(*h, *d),
        r < 0x400_0000_0000_0000,
{
    let ray: i128 = h.ray as i128;
    let den: i128 = h.den as i128;
    let dx: i128 = d.x as i128;
    let dy: i128 = d.y as i128;
    assert(ray * ray <= 0x40_0000_0000_0000_0000_0000) by (nonlinear_arith)
        requires
            0 < ray <= 0x800_0000_0000,
    ;
    proof {
        lemma_mul_bound(dx as int, dx as int, 0x4000, 0x4000);
        lemma_mul_bound(dy as int, dy as int, 0x4000, 0x4000);
        assert(dx * dx >= 0 && dy * dy >= 0) by (nonlinear_arith);
    }
    assert(den * den >= 1) by (nonlinear_arith)
        requires
            den >= 1,
    ;
    let sq: i128 = ray * ray;
    let len2: i128 = dx * dx + dy * dy;
    assert(0 <= sq * len2 <= 0x8_0000_0000_0000_0000_0000_0000_0000) by (nonlinear_arith)
        requires
            0 <= sq <= 0x40_0000_0000_0000_0000_0000,
            0 <= len2 <= 0x2000_0000,
    ;
    assert(den * den <= 0x100_0000_0000_0000_0000) by (nonlinear_arith)
        requires
            0 < den <= 0x10_0000_0000,
    ;
    let num: i128 = sq * len2;
    let q: i128 = num / (den * den);
    proof {
        lemma_div_is_ordered_by_denominator(num as int, 1, den * den);
    }
    isqrt(q as u128)
}

/// The nearest hit of the ray from `origin` along `direction` over `walls`,
/// with its distance, or `(None, NO_HIT)`.
pub fn cast_ray(origin: &Point, direction: &Point, walls: &Vec<Line>) -> (r: (Option<Hit>, u64))
    requires
        position_ok(*origin),
        direction_ok(*direction),
        all_walls_ok(walls@),
    ensures
        r.0 == ray_point(*origin, *direction, walls@),
        r.1 == ray_distance(*origin, *direction, walls@),
        r.1 < 0x400_0000_0000_0000 || r.1 == NO_HIT,
{
    let mut best: Option<Hit> = None;
    let mut best_d: u64 = NO_HIT;
    let mut j: usize = 0;
    while j < walls.len()
        invariant
            j <= walls@.len(),
            position_ok(*origin),
            direction_ok(*direction),
            all_walls_ok(walls@),
            nearest(*origin, *direction, walls@.subrange(0, j as int)) == match best {
                Some(h) => Some((h, best_d as int)),
                None => None,
            },
            best is None ==> best_d == NO_HIT,
            best_d < 0x400_0000_0000_0000 || best_d == NO_HIT,
        decreases walls.len() - j,
    {
        assert(walls@.subrange(0, j + 1).drop_last() == walls@.subrange(0, j as int));
        assert(line_ok(walls@[j as int]));
        match check_intersect(origin, direction, &walls[j]) {
            Some(h) => {
                let dist = distance_to_hit(&h, direction);
                if dist < best_d {
                    best = Some(h);
                    best_d = dist;
                }
            },
            None => {},
        }
        j = j + 1;
    }
    assert(walls@.subrange(0, walls@.len() as int) == walls@);
    (best, best_d)
}

/// The visibility pass: for every direction, in order, the nearest hit from
/// `player` over `walls` and its distance.
pub fn cast_rays(player: &Point, directions: &Vec<Point>, walls: &Vec<Line>) -> (r: Frame)
    requires
        position_ok(*player),
        all_directions_ok(directions@),
        all_walls_ok(walls@),
    ensures
        is_pass_of(r, *player, directions@, walls@),
        forall|i: int|
            0 <= i < r.distances@.len() ==> #[trigger] r.distances@[i] < 0x400_0000_0000_0000
                || r.distances@[i] == NO_HIT,
{
    let mut points: Vec<Option<Hit>> = Vec::new();
    let mut distances: Vec<u64> = Vec::new();
    let mut i: usize = 0;
    while i < directions.len()
        invariant
            i <= directions@.len(),
            points@.len() == i,
            distances@.len() == i,
            position_ok(*player),
            all_directions_ok(directions@),
            all_walls_ok(walls@),
            forall|k: int|
                0 <= k < i ==> #[trigger] points@[k] == ray_point(*player, directions@[k], walls@)
                    && distances@[k] == ray_distance(*player, directions@[k], walls@),
            forall|k: int|
                0 <= k < i ==> #[trigger] distances@[k] < 0x400_0000_0000_0000
                    || distances@[k] == NO_HIT,
        decreases directions.len() - i,
    {
        assert(direction_ok(directions@[i as int]));
        let (p, dist) = cast_ray(player, &directions[i], walls);
        points.push(p);
        distances.push(dist);
        i = i + 1;
    }
    Frame { points, distances }
}

} // verus!
