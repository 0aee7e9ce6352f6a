use chase_core::geom::Vec3Fix;
use chase_core::path_index::PathError;
use chase_core::path_index::SceneNode;
use chase_core::screen::Screen;
use chase_core::screen::handle_finish_action;
use chase_core::screen::valid_transition;
use chase_core::visibility::LostTime;
use chase_core::world::CurrentScene;
use chase_core::world::GameWorld;
use chase_core::world::apply_screen_transition;
use chase_core::world::game_tick;
use chase_core::world::new_game_world;
use chase_core::world::request_transition;
use chase_core::world::spawn_gltf_objects;

fn node(name: &str, x: i64, y: i64, z: i64) -> SceneNode {
    SceneNode { name: name.as_bytes().to_vec(), translation: Vec3Fix::new(x, y, z) }
}

fn city() -> Vec<SceneNode> {
    vec![
        node("Camera1", 1000, 2000, 3000),
        node("Robber1Point1", 0, 0, 0),
        node("Robber1Point2", 11_000, 0, 0),
        node("House", 7, 7, 7),
    ]
}

fn long_city() -> Vec<SceneNode> {
    vec![
        node("Robber1Point1", 0, 0, 0),
        node("Robber1Point2", 100_000_000, 0, 0),
    ]
}

fn entity_count(w: &GameWorld) -> usize {
    (w.scene_spawned as usize) + w.camera_points.len() + w.camera_icons.len()
        + (w.sun_spawned as usize) + (w.robber.is_some() as usize)
}

/// Drive a fresh world into `Playing` with the scene instantiated.
fn start_session(nodes: &Vec<SceneNode>) -> GameWorld {
    let mut w = new_game_world();
    request_transition(&mut w, Screen::Playing);
    apply_screen_transition(&mut w);
    assert_eq!(w.screen, Screen::Playing);
    assert!(w.sun_spawned);
    // asset polling: nothing spawns before the startup delay has passed
    assert_eq!(spawn_gltf_objects(&mut w, Some(nodes), true), Ok(()));
    assert!(!w.scene_spawned);
    game_tick(&mut w, 2000, true);
    assert_eq!(spawn_gltf_objects(&mut w, Some(nodes), true), Ok(()));
    assert!(w.scene_spawned);
    w
}

#[test]
fn transition_table() {
    assert!(valid_transition(Screen::Title, Screen::Playing));
    assert!(valid_transition(Screen::Playing, Screen::Win));
    assert!(valid_transition(Screen::Playing, Screen::Lose));
    assert!(valid_transition(Screen::Win, Screen::Title));
    assert!(valid_transition(Screen::Lose, Screen::Title));
    assert!(!valid_transition(Screen::Title, Screen::Win));
    assert!(!valid_transition(Screen::Title, Screen::Lose));
    assert!(!valid_transition(Screen::Win, Screen::Lose));
    assert!(!valid_transition(Screen::Lose, Screen::Win));
    assert!(!valid_transition(Screen::Playing, Screen::Playing));
}

#[test]
fn invalid_requests_are_dropped() {
    let mut w = new_game_world();
    request_transition(&mut w, Screen::Win);
    apply_screen_transition(&mut w);
    assert_eq!(w.screen, Screen::Title);
    assert_eq!(w.next_screen, None);
}

#[test]
fn end_screen_acknowledgment() {
    assert_eq!(handle_finish_action(true), Some(Screen::Title));
    assert_eq!(handle_finish_action(false), None);
}

#[test]
fn spawn_waits_for_readiness_and_happens_once() {
    let nodes = city();
    let mut w = new_game_world();
    // not in Playing: the poll does nothing
    game_tick(&mut w, 5000, true);
    assert_eq!(spawn_gltf_objects(&mut w, Some(&nodes), true), Ok(()));
    assert!(!w.scene_spawned);

    let mut w = start_session(&nodes);
    assert_eq!(w.current_scene, CurrentScene(Some(chase_core::assets::SceneKey::City)));
    assert_eq!(w.camera_points.len(), 1);
    assert_eq!(w.camera_icons.len(), 1);
    assert!(w.robber.is_some());
    // a second poll is a no-op: the scene is instantiated exactly once
    let robber_pos = w.robber.as_ref().unwrap().pos;
    assert_eq!(spawn_gltf_objects(&mut w, Some(&nodes), true), Ok(()));
    assert_eq!(w.camera_points.len(), 1);
    assert_eq!(w.robber.as_ref().unwrap().pos, robber_pos);
}

#[test]
fn spawn_without_taxi_spawns_no_robber() {
    let nodes = city();
    let mut w = new_game_world();
    request_transition(&mut w, Screen::Playing);
    apply_screen_transition(&mut w);
    game_tick(&mut w, 2000, true);
    assert_eq!(spawn_gltf_objects(&mut w, Some(&nodes), false), Ok(()));
    assert!(w.scene_spawned);
    assert!(w.robber.is_none());
}

#[test]
fn missing_paths_fail_loudly_and_change_nothing() {
    let nodes = vec![node("Camera1", 0, 0, 0), node("House", 1, 1, 1)];
    let mut w = new_game_world();
    request_transition(&mut w, Screen::Playing);
    apply_screen_transition(&mut w);
    game_tick(&mut w, 2000, true);
    assert_eq!(spawn_gltf_objects(&mut w, Some(&nodes), true), Err(PathError::NoRobberPath));
    assert!(!w.scene_spawned);
    assert_eq!(w.current_scene, CurrentScene(None));
    assert!(w.robber.is_none());
}

#[test]
fn icons_follow_their_camera_points() {
    let nodes = city();
    let mut w = start_session(&nodes);
    assert_eq!(w.camera_icons[0].pos, Vec3Fix::new(0, 0, 0));
    game_tick(&mut w, 16, true);
    // anchor (1000, 2000, 3000) plus the quarter-unit offset above it
    assert_eq!(w.camera_icons[0].pos, Vec3Fix::new(1000, 2250, 3000));
}

#[test]
fn end_to_end_win_requested_once() {
    // Path (0,0,0) -> (11,0,0) units at the game speed of 5.5 units/sec:
    // tick 1 advances to (5.5,0,0), tick 2 snaps onto the end and requests
    // Win; once in Win, nothing further happens.
    let nodes = city();
    let mut w = start_session(&nodes);
    assert_eq!(w.robber.as_ref().unwrap().pos, Vec3Fix::new(0, 0, 0));

    game_tick(&mut w, 1000, true);
    assert_eq!(w.robber.as_ref().unwrap().pos, Vec3Fix::new(5500, 0, 0));
    assert_eq!(w.robber.as_ref().unwrap().path.step, 0);
    assert_eq!(w.next_screen, None);

    game_tick(&mut w, 1000, true);
    assert_eq!(w.robber.as_ref().unwrap().pos, Vec3Fix::new(11_000, 0, 0));
    assert_eq!(w.robber.as_ref().unwrap().path.step, 1);
    assert_eq!(w.next_screen, Some(Screen::Win));

    apply_screen_transition(&mut w);
    assert_eq!(w.screen, Screen::Win);
    // the win request fired exactly once: parked in Win, ticks change nothing
    game_tick(&mut w, 1000, false);
    assert_eq!(w.next_screen, None);
    assert_eq!(w.screen, Screen::Win);
}

#[test]
fn thirty_unseen_seconds_lose_exactly_once() {
    let nodes = long_city();
    let mut w = start_session(&nodes);
    // first unseen tick creates the countdown at zero
    game_tick(&mut w, 10_000, false);
    assert_eq!(w.loss_timer, Some(LostTime { elapsed_ms: 0 }));
    assert_eq!(w.next_screen, None);
    game_tick(&mut w, 10_000, false);
    game_tick(&mut w, 10_000, false);
    assert_eq!(w.loss_timer, Some(LostTime { elapsed_ms: 20_000 }));
    assert_eq!(w.next_screen, None);
    game_tick(&mut w, 10_000, false);
    assert_eq!(w.loss_timer, Some(LostTime { elapsed_ms: 30_000 }));
    assert_eq!(w.next_screen, Some(Screen::Lose));

    apply_screen_transition(&mut w);
    assert_eq!(w.screen, Screen::Lose);
    // gated: no further Lose request can fire outside Playing
    game_tick(&mut w, 10_000, false);
    assert_eq!(w.next_screen, None);
    assert_eq!(w.screen, Screen::Lose);
}

#[test]
fn reacquisition_resets_the_countdown() {
    let nodes = long_city();
    let mut w = start_session(&nodes);
    game_tick(&mut w, 0, false);
    game_tick(&mut w, 29_900, false);
    assert_eq!(w.loss_timer, Some(LostTime { elapsed_ms: 29_900 }));
    // seen for one tick: countdown destroyed, no carry-over
    game_tick(&mut w, 16, true);
    assert_eq!(w.loss_timer, None);
    game_tick(&mut w, 16, false);
    assert_eq!(w.loss_timer, Some(LostTime { elapsed_ms: 0 }));
    assert_eq!(w.next_screen, None);
}

#[test]
fn loss_outranks_a_win_on_the_same_tick() {
    let nodes = city();
    let mut w = start_session(&nodes);
    w.loss_timer = Some(LostTime { elapsed_ms: 29_000 });
    // dt large enough to finish the whole path and the countdown together
    game_tick(&mut w, 10_000, false);
    assert_eq!(w.next_screen, Some(Screen::Lose));
}

#[test]
fn leaving_playing_tears_everything_down() {
    let nodes = city();
    let mut w = start_session(&nodes);
    game_tick(&mut w, 1000, false);
    assert!(entity_count(&w) > 0);

    request_transition(&mut w, Screen::Lose);
    apply_screen_transition(&mut w);
    assert_eq!(w.screen, Screen::Lose);
    assert_eq!(entity_count(&w), 0);
    assert_eq!(w.current_scene, CurrentScene(None));
    assert_eq!(w.loss_timer, None);

    // back to the title and into a fresh session: nothing leaked across
    request_transition(&mut w, Screen::Title);
    apply_screen_transition(&mut w);
    assert_eq!(w.screen, Screen::Title);
    request_transition(&mut w, Screen::Playing);
    apply_screen_transition(&mut w);
    assert_eq!(spawn_gltf_objects(&mut w, Some(&nodes), true), Ok(()));
    assert!(w.scene_spawned);
    assert_eq!(w.camera_points.len(), 1);
}

#[test]
fn round_trip_through_win_is_clean() {
    let nodes = city();
    let mut w = start_session(&nodes);
    game_tick(&mut w, 1000, true);
    game_tick(&mut w, 1000, true);
    apply_screen_transition(&mut w);
    assert_eq!(w.screen, Screen::Win);
    assert_eq!(entity_count(&w), 0);
    assert_eq!(w.current_scene, CurrentScene(None));
}
