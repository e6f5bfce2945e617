//! Per-frame control state: player position, facing, view mode, and the
//! transition that one frame's input makes on them.
use vstd::prelude::*;
use crate::geometry::{direction_ok, position_ok, Line, Point, COORD_LIMIT};
use crate::visibility::{is_pass_of, Frame};

verus! {

/// Number of rays in the fan, one per degree.
pub const FOV: i64 = 40;

/// A full turn, in tenths of a degree.
pub const FULL_TURN: i64 = 3600;

/// Angle between neighbouring rays, in tenths of a degree.
pub const RAY_SPACING: i64 = 10;

/// Rotation per frame while a turn key is held, in tenths of a degree.
pub const TURN_STEP: i64 = 1;

/// A heading vector divided by this is one frame's movement.
pub const MOVE_DIVISOR: i64 = 2560;

/// How the frame is drawn; it has no effect on the visibility pass.
#[derive(Clone, Copy, Debug, PartialEq, Eq, Structural)]
pub enum ViewMode {
    Overlay,
    Perspective,
}

/// How the player is moved: following the pointer, or by move and turn keys.
#[derive(Clone, Copy, Debug, PartialEq, Eq, Structural)]
pub enum Scheme {
    Pointer,
    Keys,
}

/// The state that persists from frame to frame. `angle` is the facing of
/// ray 0, in tenths of a degree.
#[derive(Clone, Copy, Debug, PartialEq, Eq, Structural)]
pub struct Player {
    pub position: Point,
    pub angle: i64,
    pub mode: ViewMode,
    pub scheme: Scheme,
}

/// One frame's input.
#[derive(Clone, Copy, Debug, PartialEq, Eq, Structural)]
pub struct Controls {
    pub toggle_view: bool,
    pub turn_left: bool,
    pub turn_right: bool,
    pub forward: bool,
    pub back: bool,
    pub pointer: Point,
}

pub open spec fn player_ok(p: Player) -> bool {
    position_ok(p.position) && 0 <= p.angle < FULL_TURN
}

/// `v` clamped to the coordinate range.
pub open spec fn clamp_coord(v: int) -> int {
    if v < -COORD_LIMIT {
        -COORD_LIMIT as int
    } else if v > COORD_LIMIT {
        COORD_LIMIT as int
    } else {
        v
    }
}

/// Division rounded toward zero.
pub open spec fn div_toward_zero(x: int, k: int) -> int {
    if x >= 0 {
        x / k
    } else {
        -((-x) / k)
    }
}

/// One frame's movement along `heading`: +1 forward, -1 back, 0 neither or both.
pub open spec fn move_sign(c: Controls) -> int {
    (if c.forward { 1int } else { 0int }) - (if c.back { 1int } else { 0int })
}

/// One frame's rotation: +1 right, -1 left, 0 neither or both.
pub open spec fn turn_sign(c: Controls) -> int {
    (if c.turn_right { 1int } else { 0int }) - (if c.turn_left { 1int } else { 0int })
}

pub open spec fn flip(m: ViewMode) -> ViewMode {
    match m {
        ViewMode::Overlay => ViewMode::Perspective,
        ViewMode::Perspective => ViewMode::Overlay,
    }
}

/// The state after one frame with input `c`; `heading` is the unit direction
/// of the centre ray, scaled as a direction.
pub open spec fn next_player(s: Player, c: Controls, heading: Point) -> Player {
    let mode = if c.toggle_view { flip(s.mode) } else { s.mode };
    match s.scheme {
        Scheme::Pointer => Player {
            position: Point {
                x: clamp_coord(c.pointer.x as int) as i64,
                y: clamp_coord(c.pointer.y as int) as i64,
            },
            angle: s.angle,
            mode,
            scheme: s.scheme,
        },
        Scheme::Keys => Player {
            position: Point {
                x: clamp_coord(
                    s.position.x + move_sign(c) * div_toward_zero(heading.x as int, MOVE_DIVISOR as int),
                ) as i64,
                y: clamp_coord(
                    s.position.y + move_sign(c) * div_toward_zero(heading.y as int, MOVE_DIVISOR as int),
                ) as i64,
            },
            angle: ((s.angle + turn_sign(c) * TURN_STEP) % (FULL_TURN as int)) as i64,
            mode,
            scheme: s.scheme,
        },
    }
}

fn clamp(v: i64) -> (r: i64)
    ensures
        r == clamp_coord(v as int),
{
    if v < -COORD_LIMIT {
        -COORD_LIMIT
    } else if v > COORD_LIMIT {
        COORD_LIMIT
    } else {
        v
    }
}

fn shrink(x: i64) -> (r: i64)
    requires
        -0x4000 <= x <= 0x4000,
    ensures
        r == div_toward_zero(x as int, MOVE_DIVISOR as int),
        -0x4000 <= r <= 0x4000,
{
    if x >= 0 {
        x / MOVE_DIVISOR
    } else {
        -((-x) / MOVE_DIVISOR)
    }
}

/// Applies one frame's input. The flag is set when the facing changed, so
/// that the whole fan of directions is to be rebuilt.
pub fn step(s: &Player, c: &Controls, heading: &Point) -> (r: (Player, bool))
    requires
        player_ok(*s),
        direction_ok(*heading),
    ensures
        r.0 == next_player(*s, *c, *heading),
        player_ok(r.0),
        r.1 == (r.0.angle != s.angle),
{
    let mode = if c.toggle_view {
        match s.mode {
            ViewMode::Overlay => ViewMode::Perspective,
            ViewMode::Perspective => ViewMode::Overlay,
        }
    } else {
        s.mode
    };
    let next = match s.scheme {
        Scheme::Pointer => Player {
            position: Point { x: clamp(c.pointer.x), y: clamp(c.pointer.y) },
            angle: s.angle,
            mode,
            scheme: s.scheme,
        },
        Scheme::Keys => {
            let mv: i64 = (if c.forward { 1 } else { 0 }) - (if c.back { 1 } else { 0 });
            let tn: i64 = (if c.turn_right { 1 } else { 0 }) - (if c.turn_left { 1 } else { 0 });
            let sx = shrink(heading.x);
            let sy = shrink(heading.y);
            assert(-0x4000 <= mv * sx <= 0x4000 && -0x4000 <= mv * sy <= 0x4000) by (nonlinear_arith)
                requires
                    -1 <= mv <= 1,
                    -0x4000 <= sx <= 0x4000,
                    -0x4000 <= sy <= 0x4000,
            ;
            let raw: i64 = s.angle + tn * TURN_STEP;
            let angle: i64 = if raw < 0 {
                raw + FULL_TURN
            } else if raw >= FULL_TURN {
                raw - FULL_TURN
            } else {
                raw
            };
            Player {
                position: Point {
                    x: clamp(s.position.x + mv * sx),
                    y: clamp(s.position.y + mv * sy),
                },
                angle,
                mode,
                scheme: s.scheme,
            }
        },
    };
    let turned = next.angle != s.angle;
    (next, turned)
}

/// The angles of the fan, in tenths of a degree: ray `i` faces
/// `angle + i * RAY_SPACING`.
pub fn ray_angles(angle: i64, rays: usize) -> (r: Vec<i64>)
    requires
        0 <= angle < FULL_TURN,
        rays <= 3600,
    ensures
        r@.len() == rays,
        forall|i: int| 0 <= i < rays ==> #[trigger] r@[i] == angle + i * RAY_SPACING,
{
    let mut r: Vec<i64> = Vec::new();
    let mut i: usize = 0;
    while i < rays
        invariant
            i <= rays <= 3600,
            0 <= angle < FULL_TURN,
            r@.len() == i,
            forall|k: int| 0 <= k < i ==> #[trigger] r@[k] == angle + k * RAY_SPACING,
        decreases rays - i,
    {
        r.push(angle + i as i64 * RAY_SPACING);
        i = i + 1;
    }
    r
}

/// The angle of the centre ray of a fan of `rays` rays: the player's heading.
pub fn heading_angle(angle: i64, rays: i64) -> (r: i64)
    requires
        0 <= angle < FULL_TURN,
        0 <= rays <= 3600,
    ensures
        r == angle + (rays / 2) * RAY_SPACING,
{
    angle + (rays / 2) * RAY_SPACING
}

/// Toggling the view mode changes nothing but the mode: the next position
/// and facing are the same, and so are the buffers of any visibility pass
/// made from that position.
pub proof fn lemma_toggle_changes_only_mode(
    s: Player,
    c: Controls,
    heading: Point,
    dirs: Seq<Point>,
    walls: Seq<Line>,
    f1: Frame,
    f2: Frame,
)
    requires
        is_pass_of(f1, next_player(s, c, heading).position, dirs, walls),
        is_pass_of(
            f2,
            next_player(s, Controls { toggle_view: !c.toggle_view, ..c }, heading).position,
            dirs,
            walls,
        ),
    ensures
        next_player(s, Controls { toggle_view: !c.toggle_view, ..c }, heading).position
            == next_player(s, c, heading).position,
        next_player(s, Controls { toggle_view: !c.toggle_view, ..c }, heading).angle
            == next_player(s, c, heading).angle,
        next_player(s, Controls { toggle_view: !c.toggle_view, ..c }, heading).mode
            != next_player(s, c, heading).mode,
        f1.points@ == f2.points@,
        f1.distances@ == f2.distances@,
{
    let p = next_player(s, c, heading).position;
    crate::visibility::lemma_pass_deterministic(f1, f2, p, dirs, walls);
}

} // verus!
