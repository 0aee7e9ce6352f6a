//! Path component and movement integrator.
//!
//! A `Path` is an ordered sequence of waypoints and a cursor `step` that only
//! ever grows. Each simulation tick moves an actor toward the waypoint after
//! the cursor by a given travel distance: when the remaining distance is
//! covered, the actor snaps onto the waypoint (no overshoot) and the cursor
//! advances; otherwise the position gains the floor of
//! `delta · travel / distance` per coordinate, an exact fixed-point statement
//! of "advance by `v·Δt` along the normalized direction". The actor's facing
//! is the travel delta of the tick; when that delta is zero (degenerate
//! geometry) the previous facing is kept rather than producing an undefined
//! orientation.

use vstd::prelude::*;

use crate::geom::COORD_LIMIT;
use crate::geom::Vec3Fix;
use crate::geom::mag;
use crate::math::isqrt;
use crate::math::mul_div;
use crate::math::sqrt_floor;

verus! {

/// An actor's path: waypoints and a progress cursor.
pub struct Path {
    pub points: Vec<Vec3Fix>,
    pub step: usize,
}

impl Path {
    /// Waypoints are well-formed positions and the cursor is in range.
    pub open spec fn wf(self) -> bool {
        &&& forall|i: int| 0 <= i < self.points@.len() ==> (#[trigger] self.points@[i]).wf()
        &&& if self.points@.len() == 0 {
            self.step == 0
        } else {
            self.step < self.points@.len()
        }
    }

    /// A further waypoint remains ahead of the cursor.
    pub open spec fn advancing(self) -> bool {
        self.step + 1 < self.points@.len()
    }

    /// The cursor rests on the final waypoint.
    pub open spec fn at_end(self) -> bool {
        self.points@.len() > 0 && self.step == self.points@.len() - 1
    }
}

/// The floor of `|delta| · travel / dist`, signed toward the target.
pub open spec fn advance_coord(delta: int, travel: int, dist: int) -> int {
    if delta >= 0 {
        (delta * travel) / dist
    } else {
        -((-delta * travel) / dist)
    }
}

/// The partial advance toward the target, per coordinate.
pub open spec fn advance_vec(d: Vec3Fix, travel: int, dist: int) -> Vec3Fix {
    Vec3Fix {
        x: advance_coord(d.x as int, travel, dist) as i64,
        y: advance_coord(d.y as int, travel, dist) as i64,
        z: advance_coord(d.z as int, travel, dist) as i64,
    }
}

/// Where one movement tick puts the actor: the new position and cursor.
pub open spec fn move_result(pos: Vec3Fix, path: Path, travel: int) -> (Vec3Fix, usize) {
    if !path.advancing() {
        (pos, path.step)
    } else {
        let target = path.points@[path.step + 1];
        let d = target.sub_spec(pos);
        let ds = d.norm_sq_spec();
        if travel * travel >= ds {
            (target, (path.step + 1) as usize)
        } else {
            (pos.add_spec(advance_vec(d, travel, sqrt_floor(ds as nat) as int)), path.step)
        }
    }
}

/// Where one movement tick points the actor: the travel delta of the tick,
/// or the old facing when the delta is zero.
pub open spec fn facing_result(pos: Vec3Fix, path: Path, facing: Vec3Fix) -> Vec3Fix {
    if !path.advancing() {
        facing
    } else {
        let d = path.points@[path.step + 1].sub_spec(pos);
        if d.is_zero() {
            facing
        } else {
            d
        }
    }
}

/// The floor of `|delta| · travel / dist`, signed toward the target; it never
/// passes the target.
fn advance_component(delta: i64, travel: u64, dist: u64) -> (r: i64)
    requires
        -2 * COORD_LIMIT as int <= delta <= 2 * COORD_LIMIT as int,
        0 < dist <= 4_000_000_000,
        travel <= dist,
    ensures
        r == advance_coord(delta as int, travel as int, dist as int),
        delta >= 0 ==> 0 <= r <= delta,
        delta < 0 ==> delta <= r <= 0,
{
    let a = mag(delta);
    proof {
        assert(a * travel <= u64::MAX) by (nonlinear_arith)
            requires
                0 <= a <= 2_000_000_000,
                0 <= travel <= 4_000_000_000,
        ;
        vstd::arithmetic::mul::lemma_mul_inequality(travel as int, dist as int, a as int);
        vstd::arithmetic::div_mod::lemma_div_is_ordered(
            a as int * travel as int,
            a as int * dist as int,
            dist as int,
        );
        vstd::arithmetic::div_mod::lemma_div_multiples_vanish(a as int, dist as int);
        vstd::arithmetic::div_mod::lemma_div_pos_is_pos(a as int * travel as int, dist as int);
        assert(a as int * travel as int == travel as int * a as int) by (nonlinear_arith);
        assert(a as int * dist as int == dist as int * a as int) by (nonlinear_arith);
    }
    let adv = mul_div(a, travel, dist);
    if delta >= 0 {
        adv as i64
    } else {
        -(adv as i64)
    }
}

/// One movement tick: advance the actor's position along its path by
/// `distance_to_move` milliunits, snapping onto the next waypoint when it is
/// reached (no overshoot recorded), and reorient the actor to face its travel
/// direction. A path with fewer than two waypoints, or one whose cursor rests
/// on the final waypoint, is inert.
pub fn move_along_path(
    pos: &mut Vec3Fix,
    facing: &mut Vec3Fix,
    path: &mut Path,
    distance_to_move: u64,
)
    requires
        old(pos).wf(),
        old(path).wf(),
    ensures
        final(path).points == old(path).points,
        old(path).step <= final(path).step,
        (*final(pos), final(path).step) == move_result(
            *old(pos),
            *old(path),
            distance_to_move as int,
        ),
        *final(facing) == facing_result(*old(pos), *old(path), *old(facing)),
        final(pos).wf(),
        final(path).wf(),
        !old(path).advancing() ==> *final(pos) == *old(pos) && final(path).step == old(path).step
            && *final(facing) == *old(facing),
        old(path).advancing() ==> ({
            let target = old(path).points@[old(path).step + 1];
            let d = target.sub_spec(*old(pos));
            let ds = d.norm_sq_spec();
            &&& (distance_to_move * distance_to_move >= ds ==> *final(pos) == target
                && final(path).step == old(path).step + 1)
            &&& (distance_to_move * distance_to_move < ds ==> final(path).step == old(path).step
                && *final(pos) == old(pos).add_spec(
                advance_vec(d, distance_to_move as int, sqrt_floor(ds as nat) as int),
            ))
            &&& (!d.is_zero() ==> *final(facing) == d)
            &&& (d.is_zero() ==> *final(facing) == *old(facing))
        }),
{
    let len = path.points.len();
    if len == 0 || path.step >= len - 1 {
        return ;
    }
    let target = path.points[path.step + 1];
    let d = target.sub(*pos);
    let ds = d.norm_sq();
    proof {
        assert(ds <= 12_000_000_000_000_000_000) by (nonlinear_arith)
            requires
                ds == d.x * d.x + d.y * d.y + d.z * d.z,
                -2_000_000_000 <= d.x <= 2_000_000_000,
                -2_000_000_000 <= d.y <= 2_000_000_000,
                -2_000_000_000 <= d.z <= 2_000_000_000,
        ;
        assert((distance_to_move as u128) * (distance_to_move as u128) <= u128::MAX
            && (distance_to_move as u128) * (distance_to_move as u128) == (distance_to_move as int)
            * (distance_to_move as int)) by (nonlinear_arith)
            requires
                0 <= distance_to_move <= u64::MAX,
        ;
    }
    let travel = distance_to_move;
    if (travel as u128) * (travel as u128) >= (ds as u128) {
        *pos = target;
        path.step = path.step + 1;
    } else {
        let dist = isqrt(ds);
        proof {
            assert(dist >= 1) by {
                if dist == 0 {
                    assert((dist + 1) * (dist + 1) == 1) by (nonlinear_arith)
                        requires
                            dist == 0,
                    ;
                }
            }
            assert(dist <= 4_000_000_000) by (nonlinear_arith)
                requires
                    dist * dist <= 12_000_000_000_000_000_000,
            ;
            assert(travel <= dist) by (nonlinear_arith)
                requires
                    (travel as int) * (travel as int) < ds,
                    ds < (dist + 1) * (dist + 1),
                    dist >= 0,
                    travel >= 0,
            ;
        }
        let ax = advance_component(d.x, travel, dist);
        let ay = advance_component(d.y, travel, dist);
        let az = advance_component(d.z, travel, dist);
        *pos = Vec3Fix { x: pos.x + ax, y: pos.y + ay, z: pos.z + az };
        proof {
            assert(*pos == old(pos).add_spec(
                advance_vec(d, travel as int, sqrt_floor(ds as nat) as int),
            ));
        }
    }
    if !(d.x == 0 && d.y == 0 && d.z == 0) {
        *facing = d;
    }
}

/// The tracked actor: its transform (position and facing), its path, and the
/// one-shot completion marker that keeps the win signal from repeating.
pub struct Robber {
    pub pos: Vec3Fix,
    pub facing: Vec3Fix,
    pub path: Path,
    pub finish_announced: bool,
}

/// The path-completion signal; emitted at most once per robber.
pub struct PathFinished;

impl Robber {
    pub open spec fn wf(self) -> bool {
        self.pos.wf() && self.path.wf()
    }
}

/// Where one tick takes the robber, and whether it announces completion.
pub open spec fn spec_robber_tick(r: Robber, travel: int) -> (Robber, bool) {
    let mr = move_result(r.pos, r.path, travel);
    let path1 = Path { points: r.path.points, step: mr.1 };
    (
        Robber {
            pos: mr.0,
            facing: facing_result(r.pos, r.path, r.facing),
            path: path1,
            finish_announced: r.finish_announced || path1.at_end(),
        },
        path1.at_end() && !r.finish_announced,
    )
}

/// One simulation tick of the tracked actor: move it along its path and hand
/// out the completion signal — `Some` exactly on the tick that finds the
/// cursor on the final waypoint for the first time, so the win signal fires
/// at most once per arrival.
pub fn robber_tick(r: &mut Robber, distance_to_move: u64) -> (finished: Option<PathFinished>)
    requires
        old(r).wf(),
    ensures
        final(r).wf(),
        *final(r) == spec_robber_tick(*old(r), distance_to_move as int).0,
        (finished is Some) == spec_robber_tick(*old(r), distance_to_move as int).1,
        final(r).path.points == old(r).path.points,
        old(r).path.step <= final(r).path.step,
        finished is Some <==> final(r).path.at_end() && !old(r).finish_announced,
        final(r).finish_announced == (old(r).finish_announced || final(r).path.at_end()),
{
    move_along_path(&mut r.pos, &mut r.facing, &mut r.path, distance_to_move);
    let len = r.path.points.len();
    let at_end = len > 0 && r.path.step == len - 1;
    let finished = at_end && !r.finish_announced;
    if at_end {
        r.finish_announced = true;
    }
    if finished {
        Some(PathFinished)
    } else {
        None
    }
}

/// Once the cursor rests on the final waypoint, a further tick changes
/// nothing of the actor's transform or path, and the completion marker is
/// set: the integrator is idempotent in the `Arrived` state.
pub proof fn lemma_arrived_idempotent(r: Robber, travel: int)
    requires
        r.path.at_end(),
    ensures
        spec_robber_tick(r, travel).0.pos == r.pos,
        spec_robber_tick(r, travel).0.facing == r.facing,
        spec_robber_tick(r, travel).0.path == r.path,
        spec_robber_tick(r, travel).0.finish_announced,
{
    assert(spec_robber_tick(r, travel).0.path == r.path);
}

/// A run of ticks, counting how many announced completion.
pub open spec fn run_ticks(r: Robber, travels: Seq<int>) -> (Robber, int)
    decreases travels.len(),
{
    if travels.len() == 0 {
        (r, 0)
    } else {
        let t = spec_robber_tick(r, travels.first());
        let rest = run_ticks(t.0, travels.drop_first());
        (rest.0, rest.1 + if t.1 { 1int } else { 0int })
    }
}

/// Over any run of ticks the completion signal is announced at most once,
/// and never again once the marker is set.
pub proof fn lemma_finish_at_most_once(r: Robber, travels: Seq<int>)
    ensures
        run_ticks(r, travels).1 <= 1,
        r.finish_announced ==> run_ticks(r, travels).1 == 0,
    decreases travels.len(),
{
    if travels.len() > 0 {
        let t = spec_robber_tick(r, travels.first());
        lemma_finish_at_most_once(t.0, travels.drop_first());
        if t.1 {
            assert(t.0.finish_announced);
        }
    }
}

/// Once arrived, no run of ticks moves the actor or its cursor again.
pub proof fn lemma_arrived_stable(r: Robber, travels: Seq<int>)
    requires
        r.path.at_end(),
    ensures
        run_ticks(r, travels).0.pos == r.pos,
        run_ticks(r, travels).0.facing == r.facing,
        run_ticks(r, travels).0.path == r.path,
    decreases travels.len(),
{
    if travels.len() > 0 {
        lemma_arrived_idempotent(r, travels.first());
        lemma_arrived_stable(spec_robber_tick(r, travels.first()).0, travels.drop_first());
    }
}

} // verus!


