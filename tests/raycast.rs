use raynex::control::{heading_angle, ray_angles, step, Controls, Player, Scheme, ViewMode};
use raynex::geometry::{check_intersect, Hit, Line, Point};
use raynex::render::{change_range, ray_column, columns, correct_fisheye, perspective_distances, Frac, Screen};
use raynex::root::isqrt;
use raynex::visibility::{boundary_walls, cast_ray, cast_rays, distance_to_hit, NO_HIT};

fn pt(x: i64, y: i64) -> Point {
    Point { x, y }
}

fn hit_at(h: &Hit) -> (i64, i64) {
    assert_eq!(h.x % h.den, 0);
    assert_eq!(h.y % h.den, 0);
    (h.x / h.den, h.y / h.den)
}

#[test]
fn hit_on_wall_ahead() {
    let wall = Line::new(500, 0, 500, 450);
    let h = check_intersect(&pt(400, 225), &pt(1, 0), &wall).unwrap();
    assert_eq!(hit_at(&h), (500, 225));
    assert_eq!(distance_to_hit(&h, &pt(1, 0)), 100);
    let (p, d) = cast_ray(&pt(400, 225), &pt(1, 0), &vec![wall]);
    assert_eq!(hit_at(&p.unwrap()), (500, 225));
    assert_eq!(d, 100);
}

#[test]
fn wall_behind_is_missed() {
    let wall = Line::new(300, 0, 300, 450);
    assert_eq!(check_intersect(&pt(400, 225), &pt(1, 0), &wall), None);
    assert_eq!(cast_ray(&pt(400, 225), &pt(1, 0), &vec![wall]), (None, NO_HIT));
}

#[test]
fn hit_lies_inside_segment_and_ahead() {
    let wall = Line::new(100, 400, 700, 100);
    let o = pt(400, 400);
    let d = pt(3, -16384);
    let h = check_intersect(&o, &d, &wall).unwrap();
    assert!(0 < h.seg && h.seg < h.den);
    assert!(h.ray > 0);
    assert_eq!(h.x, o.x * h.den + h.ray * d.x);
    assert_eq!(h.y, o.y * h.den + h.ray * d.y);
    assert_eq!(h.x, wall.p1.x * h.den + h.seg * (wall.p2.x - wall.p1.x));
}

#[test]
fn endpoints_and_parallel_rays_miss() {
    let wall = Line::new(500, 0, 500, 450);
    assert_eq!(check_intersect(&pt(400, 0), &pt(1, 0), &wall), None);
    assert_eq!(check_intersect(&pt(400, 450), &pt(1, 0), &wall), None);
    assert_eq!(check_intersect(&pt(400, 225), &pt(0, 1), &wall), None);
    assert_eq!(check_intersect(&pt(400, 225), &pt(0, 0), &wall), None);
}

#[test]
fn nearest_of_several_walls() {
    let far = Line::new(500, 0, 500, 450);
    let near = Line::new(450, 100, 450, 300);
    let off = Line::new(450, 300, 450, 450);
    let o = pt(400, 225);
    let (p1, d1) = cast_ray(&o, &pt(1, 0), &vec![far, near, off]);
    let (p2, d2) = cast_ray(&o, &pt(1, 0), &vec![off, near, far]);
    assert_eq!(d1, 50);
    assert_eq!(d2, 50);
    assert_eq!(hit_at(&p1.unwrap()), (450, 225));
    assert_eq!(hit_at(&p2.unwrap()), (450, 225));
}

#[test]
fn distance_is_rounded_down() {
    let wall = Line::new(0, 10, 100, 10);
    let (p, d) = cast_ray(&pt(0, 0), &pt(1, 1), &vec![wall]);
    assert_eq!(hit_at(&p.unwrap()), (10, 10));
    assert_eq!(d, 14);
}

#[test]
fn repeated_passes_agree() {
    let walls = vec![Line::new(500, 0, 500, 450), Line::new(100, 50, 700, 60), Line::new(300, 0, 300, 450)];
    let dirs = vec![pt(16384, 0), pt(0, 16384), pt(-16384, 0), pt(11585, 11585), pt(0, -16384)];
    let a = cast_rays(&pt(400, 225), &dirs, &walls);
    let b = cast_rays(&pt(400, 225), &dirs, &walls);
    assert_eq!(a.points, b.points);
    assert_eq!(a.distances, b.distances);
    assert_eq!(a.points.len(), 5);
    assert_eq!(a.distances.len(), 5);
    assert_eq!(a.distances[0], 100);
    assert_eq!(a.distances[1], NO_HIT);
    assert_eq!(a.distances[2], 100);
    assert_eq!(a.distances[4], 170);
}

#[test]
fn bounded_scene_always_hits() {
    let walls = boundary_walls(800, 450);
    assert_eq!(walls.len(), 4);
    let dirs = vec![pt(16384, 0), pt(5, 16384), pt(-16384, 7), pt(11585, -11585)];
    let f = cast_rays(&pt(400, 225), &dirs, &walls);
    for d in &f.distances {
        assert!(*d < NO_HIT);
    }
    assert_eq!(f.distances[0], 400);
}

#[test]
fn remap_round_trip() {
    let x = Frac { num: 3, den: 1 };
    let y = change_range(x, 0, 10, 100, 0);
    assert_eq!(y.num * 1, 70 * y.den);
    let z = change_range(y, 100, 0, 0, 10);
    assert_eq!(z.num * x.den, x.num * z.den);
    let w = change_range(Frac { num: 7, den: 2 }, 1, 4, -5, 5);
    let back = change_range(w, -5, 5, 1, 4);
    assert_eq!(back.num * 2, 7 * back.den);
}

#[test]
fn center_ray_is_not_corrected() {
    let f = pt(16384, 0);
    assert_eq!(correct_fisheye(100, &f, &f), 100);
    assert_eq!(correct_fisheye(12345, &pt(4, 3), &pt(4, 3)), 12345);
    assert_eq!(correct_fisheye(100, &pt(4, 3), &pt(5, 0)), 80);
    assert_eq!(correct_fisheye(100, &pt(0, 5), &pt(5, 0)), 0);
    assert_eq!(correct_fisheye(NO_HIT, &pt(4, 3), &pt(5, 0)), NO_HIT);
    let depths = perspective_distances(&vec![100, NO_HIT], &vec![pt(4, 3), pt(5, 0)], &pt(5, 0));
    assert_eq!(depths, vec![80, NO_HIT]);
}

#[test]
fn column_layout() {
    let s = Screen { width: 800, height: 450, rays: 40, max_depth: 800 };
    let near = ray_column(&s, 0, 0);
    assert_eq!((near.x, near.y, near.width, near.height, near.alpha), (-10, 0, 20, 450, 255));
    let mid = ray_column(&s, 3, 400);
    assert_eq!((mid.x, mid.y, mid.width, mid.height, mid.alpha), (50, 113, 20, 225, 191));
    let far = ray_column(&s, 39, NO_HIT);
    assert_eq!((far.x, far.height, far.alpha), (770, 0, 0));
    let all = columns(&s, &vec![0, 400, NO_HIT]);
    assert_eq!(all, vec![near, ray_column(&s, 1, 400), ray_column(&s, 2, NO_HIT)]);
}

#[test]
fn integer_roots() {
    assert_eq!(isqrt(0), 0);
    assert_eq!(isqrt(1), 1);
    assert_eq!(isqrt(15), 3);
    assert_eq!(isqrt(16), 4);
    assert_eq!(isqrt(1 << 100), 1 << 50);
    assert_eq!(isqrt((1 << 100) - 1), (1 << 50) - 1);
}

fn keys(toggle: bool, left: bool, right: bool, fwd: bool, back: bool) -> Controls {
    Controls { toggle_view: toggle, turn_left: left, turn_right: right, forward: fwd, back, pointer: pt(0, 0) }
}

#[test]
fn toggle_changes_only_mode() {
    let s = Player { position: pt(400, 225), angle: 0, mode: ViewMode::Overlay, scheme: Scheme::Keys };
    let heading = pt(16384, 0);
    let (a, _) = step(&s, &keys(false, false, true, true, false), &heading);
    let (b, _) = step(&s, &keys(true, false, true, true, false), &heading);
    assert_eq!(a.position, b.position);
    assert_eq!(a.angle, b.angle);
    assert_eq!(a.mode, ViewMode::Overlay);
    assert_eq!(b.mode, ViewMode::Perspective);
    let walls = vec![Line::new(500, 0, 500, 450)];
    let dirs = vec![pt(16384, 0)];
    let fa = cast_rays(&a.position, &dirs, &walls);
    let fb = cast_rays(&b.position, &dirs, &walls);
    assert_eq!(fa.points, fb.points);
    assert_eq!(fa.distances, fb.distances);
}

#[test]
fn motion_and_rotation() {
    let s = Player { position: pt(400, 225), angle: 0, mode: ViewMode::Overlay, scheme: Scheme::Keys };
    let (a, turned) = step(&s, &keys(false, true, false, true, false), &pt(16384, -5120));
    assert_eq!(a.angle, 3599);
    assert!(turned);
    assert_eq!(a.position, pt(406, 223));
    let (b, turned) = step(&a, &keys(false, true, true, false, true), &pt(-16384, 0));
    assert_eq!(b.angle, 3599);
    assert!(!turned);
    assert_eq!(b.position, pt(412, 223));
    let edge = Player { position: pt(1048576, 0), angle: 3599, mode: ViewMode::Perspective, scheme: Scheme::Keys };
    let (c, _) = step(&edge, &keys(false, false, true, true, false), &pt(16384, 0));
    assert_eq!(c.position, pt(1048576, 0));
    assert_eq!(c.angle, 0);
}

#[test]
fn pointer_scheme_follows_pointer() {
    let s = Player { position: pt(400, 225), angle: 50, mode: ViewMode::Overlay, scheme: Scheme::Pointer };
    let mut c = keys(false, true, false, true, false);
    c.pointer = pt(10, 20);
    let (a, turned) = step(&s, &c, &pt(16384, 0));
    assert_eq!(a.position, pt(10, 20));
    assert_eq!(a.angle, 50);
    assert!(!turned);
    c.pointer = pt(-5_000_000, 5_000_000);
    let (b, _) = step(&s, &c, &pt(16384, 0));
    assert_eq!(b.position, pt(-1048576, 1048576));
}

#[test]
fn fan_angles() {
    let a = ray_angles(35, 40);
    assert_eq!(a.len(), 40);
    assert_eq!(a[0], 35);
    assert_eq!(a[39], 425);
    assert_eq!(heading_angle(35, 40), 235);
    assert!(ray_angles(0, 0).is_empty());
}
