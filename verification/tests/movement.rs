use chase_core::geom::Vec3Fix;
use chase_core::movement::Path;
use chase_core::movement::Robber;
use chase_core::movement::move_along_path;
use chase_core::movement::robber_tick;
use chase_core::world::travel_distance;

fn robber_on(points: Vec<Vec3Fix>) -> Robber {
    let start = if points.is_empty() { Vec3Fix::new(0, 0, 0) } else { points[0] };
    Robber {
        pos: start,
        facing: Vec3Fix::new(0, 0, 0),
        path: Path { points, step: 0 },
        finish_announced: false,
    }
}

#[test]
fn snap_onto_waypoint_without_overshoot() {
    // Covering at least the remaining distance lands exactly on the target.
    let mut pos = Vec3Fix::new(0, 0, 0);
    let mut facing = Vec3Fix::new(0, 0, 0);
    let mut path = Path { points: vec![Vec3Fix::new(0, 0, 0), Vec3Fix::new(4000, 0, 0)], step: 0 };
    move_along_path(&mut pos, &mut facing, &mut path, 9999);
    assert_eq!(pos, Vec3Fix::new(4000, 0, 0));
    assert_eq!(path.step, 1);
    assert_eq!(facing, Vec3Fix::new(4000, 0, 0));
}

#[test]
fn partial_advance_is_exact() {
    // A 3-4-5 segment: distance 5000, travel 1000, so exactly a fifth of the
    // delta: (600, 0, 800).
    let mut pos = Vec3Fix::new(0, 0, 0);
    let mut facing = Vec3Fix::new(0, 0, 0);
    let mut path = Path { points: vec![Vec3Fix::new(0, 0, 0), Vec3Fix::new(3000, 0, 4000)], step: 0 };
    move_along_path(&mut pos, &mut facing, &mut path, 1000);
    assert_eq!(pos, Vec3Fix::new(600, 0, 800));
    assert_eq!(path.step, 0);
    assert_eq!(facing, Vec3Fix::new(3000, 0, 4000));
}

#[test]
fn short_paths_are_inert() {
    let mut pos = Vec3Fix::new(5, 5, 5);
    let mut facing = Vec3Fix::new(1, 0, 0);
    let mut empty = Path { points: vec![], step: 0 };
    move_along_path(&mut pos, &mut facing, &mut empty, 1000);
    assert_eq!(pos, Vec3Fix::new(5, 5, 5));
    assert_eq!(empty.step, 0);
    assert_eq!(facing, Vec3Fix::new(1, 0, 0));

    let mut single = Path { points: vec![Vec3Fix::new(5, 5, 5)], step: 0 };
    move_along_path(&mut pos, &mut facing, &mut single, 1000);
    assert_eq!(pos, Vec3Fix::new(5, 5, 5));
    assert_eq!(single.step, 0);
}

#[test]
fn degenerate_zero_delta_keeps_previous_facing() {
    // Two identical waypoints: the travel delta is zero, so the facing is
    // kept instead of becoming undefined; the cursor still advances (the
    // zero distance is covered).
    let mut pos = Vec3Fix::new(7, 0, 0);
    let mut facing = Vec3Fix::new(0, 0, 1);
    let mut path = Path { points: vec![Vec3Fix::new(7, 0, 0), Vec3Fix::new(7, 0, 0)], step: 0 };
    move_along_path(&mut pos, &mut facing, &mut path, 1000);
    assert_eq!(pos, Vec3Fix::new(7, 0, 0));
    assert_eq!(path.step, 1);
    assert_eq!(facing, Vec3Fix::new(0, 0, 1));
}

#[test]
fn end_to_end_two_ticks_win_once() {
    // Path (0,0,0) -> (10,0,0) units, speed 5 units/sec, one-second ticks:
    // tick 1 reaches (5,0,0) with step 0, tick 2 reaches (10,0,0) with step 1
    // and announces completion exactly once; further ticks change nothing.
    let mut r = robber_on(vec![Vec3Fix::new(0, 0, 0), Vec3Fix::new(10_000, 0, 0)]);
    let travel = travel_distance(5000, 1000);
    assert_eq!(travel, 5000);

    let f1 = robber_tick(&mut r, travel);
    assert_eq!(r.pos, Vec3Fix::new(5000, 0, 0));
    assert_eq!(r.path.step, 0);
    assert!(f1.is_none());

    let f2 = robber_tick(&mut r, travel);
    assert_eq!(r.pos, Vec3Fix::new(10_000, 0, 0));
    assert_eq!(r.path.step, 1);
    assert!(f2.is_some());

    for _ in 0..5 {
        let f = robber_tick(&mut r, travel);
        assert!(f.is_none());
        assert_eq!(r.pos, Vec3Fix::new(10_000, 0, 0));
        assert_eq!(r.path.step, 1);
    }
}

#[test]
fn arrival_is_idempotent() {
    let mut r = robber_on(vec![Vec3Fix::new(0, 0, 0), Vec3Fix::new(1000, 0, 0)]);
    let f1 = robber_tick(&mut r, 1000);
    assert!(f1.is_some());
    assert_eq!(r.path.step, 1);
    let pos = r.pos;
    let facing = r.facing;
    for _ in 0..3 {
        assert!(robber_tick(&mut r, 12345).is_none());
        assert_eq!(r.path.step, 1);
        assert_eq!(r.pos, pos);
        assert_eq!(r.facing, facing);
    }
}

#[test]
fn single_waypoint_announces_once_without_moving() {
    let mut r = robber_on(vec![Vec3Fix::new(3, 3, 3)]);
    assert!(robber_tick(&mut r, 1000).is_some());
    assert_eq!(r.pos, Vec3Fix::new(3, 3, 3));
    assert!(robber_tick(&mut r, 1000).is_none());
}

#[test]
fn travel_distance_formula() {
    assert_eq!(travel_distance(5500, 1000), 5500);
    assert_eq!(travel_distance(5500, 16), 88);
    assert_eq!(travel_distance(5500, 0), 0);
    assert_eq!(travel_distance(0, 123456), 0);
    // the millisecond remainder is floored
    assert_eq!(travel_distance(5500, 1), 5);
}
