//! The game world and its per-frame composition.
//!
//! The world owns the screen state machine, the pending transition request,
//! the instantiated scene and its derived entities, the tracked actor and the
//! loss countdown — explicit state in owned structs, with id-based
//! back-references (a camera icon anchors to a camera point by index).
//!
//! A frame runs three phases in order: `spawn_gltf_objects` polls asset
//! readiness and instantiates the scene once per session; `game_tick` runs
//! the simulation systems (movement and win detection, then visibility
//! accumulation strictly before the loss-threshold check, then billboard
//! anchoring); `apply_screen_transition` consumes the pending request at the
//! frame's fixed point, tearing the session down on leaving `Playing` before
//! any new scene can be instantiated.

use vstd::prelude::*;

use crate::assets::SceneKey;
use crate::geom::Vec3Fix;
use crate::movement::Robber;
use crate::movement::robber_tick;
use crate::movement::spec_robber_tick;
use crate::parse::contains_camera;
use crate::path_index::PathError;
use crate::path_index::SceneNode;
use crate::path_index::get_random_robber_path;
use crate::path_index::group_present;
use crate::path_index::path_for_group;
use crate::path_index::point_from_scene;
use crate::screen::Screen;
use crate::screen::spec_valid_transition;
use crate::screen::valid_transition;
use crate::visibility::LostTime;
use crate::visibility::in_view;
use crate::visibility::spec_in_view;
use crate::visibility::spec_timer_stopped;
use crate::visibility::timer_stopped;
use crate::movement::Path;

verus! {

/// Which scene asset is instantiated in the live world, if any; guards
/// against duplicate instantiation.
#[derive(Clone, Copy, Debug, PartialEq, Eq, Structural)]
pub struct CurrentScene(pub Option<SceneKey>);

/// A camera anchor extracted from the scene.
#[derive(Clone, Copy, Debug, PartialEq, Eq, Structural)]
pub struct CameraPoint {
    pub pos: Vec3Fix,
}

/// A translation kept relative to another entity: the anchor's index among
/// the camera points, and the offset from it.
#[derive(Clone, Copy, Debug, PartialEq, Eq, Structural)]
pub struct TranslationRelativeTo(pub usize, pub Vec3Fix);

/// The billboarded icon hovering over a camera point.
#[derive(Clone, Copy, Debug, PartialEq, Eq, Structural)]
pub struct CameraIcon {
    pub relative_to: TranslationRelativeTo,
    pub pos: Vec3Fix,
}

/// Milliunits the robber travels per second.
pub const ROBBER_SPEED_MU_PER_S: u64 = 5500;

/// Milliseconds to wait after startup before instantiating the scene.
pub const SCENE_SPAWN_DELAY_MS: u64 = 2000;

/// The icon's offset above its camera point: a quarter unit up.
pub open spec fn icon_offset() -> Vec3Fix {
    Vec3Fix { x: 0, y: 250, z: 0 }
}

/// The origin.
pub open spec fn zero_vec() -> Vec3Fix {
    Vec3Fix { x: 0, y: 0, z: 0 }
}

/// The whole game state between frames.
pub struct GameWorld {
    pub screen: Screen,
    pub next_screen: Option<Screen>,
    pub current_scene: CurrentScene,
    pub scene_spawned: bool,
    pub camera_points: Vec<CameraPoint>,
    pub camera_icons: Vec<CameraIcon>,
    pub sun_spawned: bool,
    pub robber: Option<Robber>,
    pub loss_timer: Option<LostTime>,
    pub elapsed_ms: u64,
}

impl GameWorld {
    /// Positions well-formed and every icon anchored to an existing point.
    pub open spec fn wf(self) -> bool {
        &&& match self.robber {
            Some(r) => r.wf(),
            None => true,
        }
        &&& forall|i: int|
            0 <= i < self.camera_points@.len() ==> (#[trigger] self.camera_points@[i]).pos.wf()
        &&& forall|i: int|
            0 <= i < self.camera_icons@.len() ==> (#[trigger] self.camera_icons@[i]).relative_to.0
                < self.camera_points@.len() && self.camera_icons@[i].relative_to.1.wf()
    }
}

/// How many scene-spawned entities the world holds: the scene root, the
/// camera points and icons, the sun, and the tracked actor.
pub open spec fn scene_entity_count(w: GameWorld) -> int {
    (if w.scene_spawned {
        1int
    } else {
        0int
    }) + w.camera_points@.len() + w.camera_icons@.len() + (if w.sun_spawned {
        1int
    } else {
        0int
    }) + (if w.robber is Some {
        1int
    } else {
        0int
    })
}

/// Nothing of a play session remains.
pub open spec fn torn_down(w: GameWorld) -> bool {
    &&& w.current_scene.0 is None
    &&& !w.scene_spawned
    &&& w.camera_points@.len() == 0
    &&& w.camera_icons@.len() == 0
    &&& !w.sun_spawned
    &&& w.robber is None
    &&& w.loss_timer is None
}

/// The camera anchors of a scene: the translations of its nodes whose name
/// contains the camera token, in node order.
pub open spec fn camera_points_of(nodes: Seq<SceneNode>) -> Seq<CameraPoint>
    decreases nodes.len(),
{
    if nodes.len() == 0 {
        Seq::empty()
    } else {
        let rest = camera_points_of(nodes.drop_last());
        if contains_camera(nodes.last().name@) {
            rest.push(CameraPoint { pos: nodes.last().translation })
        } else {
            rest
        }
    }
}

/// Every camera point of a scene with well-formed translations is well-formed.
proof fn lemma_camera_points_wf(nodes: Seq<SceneNode>)
    requires
        forall|i: int| 0 <= i < nodes.len() ==> (#[trigger] nodes[i]).translation.wf(),
    ensures
        forall|j: int|
            0 <= j < camera_points_of(nodes).len() ==> (#[trigger] camera_points_of(
                nodes,
            )[j]).pos.wf(),
    decreases nodes.len(),
{
    if nodes.len() > 0 {
        let rest = nodes.drop_last();
        assert(forall|i: int|
            0 <= i < rest.len() ==> (#[trigger] rest[i]).translation == nodes[i].translation);
        lemma_camera_points_wf(rest);
        assert(nodes[nodes.len() - 1].translation.wf());
        let c = camera_points_of(rest);
        assert forall|j: int| 0 <= j < camera_points_of(nodes).len() implies (
        #[trigger] camera_points_of(nodes)[j]).pos.wf() by {
            if contains_camera(nodes.last().name@) {
                if j < c.len() {
                    assert(camera_points_of(nodes)[j] == c[j]);
                } else {
                    assert(camera_points_of(nodes)[j] == (CameraPoint {
                        pos: nodes.last().translation,
                    }));
                }
            } else {
                assert(camera_points_of(nodes)[j] == c[j]);
            }
        }
    }
}

/// A fresh world at the title screen: nothing spawned, nothing pending.
pub fn new_game_world() -> (w: GameWorld)
    ensures
        w.wf(),
        w.screen == Screen::Title,
        w.next_screen is None,
        torn_down(w),
        w.elapsed_ms == 0,
{
    GameWorld {
        screen: Screen::Title,
        next_screen: None,
        current_scene: CurrentScene(None),
        scene_spawned: false,
        camera_points: Vec::new(),
        camera_icons: Vec::new(),
        sun_spawned: false,
        robber: None,
        loss_timer: None,
        elapsed_ms: 0,
    }
}

/// The camera anchors of the scene, in node order.
fn collect_camera_points(nodes: &Vec<SceneNode>) -> (cps: Vec<CameraPoint>)
    ensures
        cps@ == camera_points_of(nodes@),
{
    let mut cps: Vec<CameraPoint> = Vec::new();
    let n = nodes.len();
    let mut i: usize = 0;
    while i < n
        invariant
            n == nodes@.len(),
            0 <= i <= n,
            cps@ == camera_points_of(nodes@.take(i as int)),
        decreases n - i,
    {
        let node = &nodes[i];
        if crate::parse::is_camera_node(&node.name) {
            cps.push(CameraPoint { pos: node.translation });
        }
        proof {
            assert(nodes@.take(i + 1 as int).drop_last() =~= nodes@.take(i as int));
            assert(nodes@.take(i + 1 as int).last() == nodes@[i as int]);
        }
        i = i + 1;
    }
    proof {
        assert(nodes@.take(n as int) =~= nodes@);
    }
    cps
}

/// Poll-and-spawn, run at the top of each `Playing` tick: once the startup
/// delay has passed, no scene is instantiated yet and the city asset has
/// loaded, instantiate the scene exactly once — record it in `CurrentScene`,
/// extract the camera points, give each its icon, and (when the taxi asset
/// has loaded too) spawn the tracked actor on a random waypoint path. A city
/// with no waypoint group is missing level content: the spawn fails loudly
/// and changes nothing, rather than spawning a pathless actor.
pub fn spawn_gltf_objects(
    w: &mut GameWorld,
    city_nodes: Option<&Vec<SceneNode>>,
    taxi_loaded: bool,
) -> (r: Result<(), PathError>)
    requires
        old(w).wf(),
        city_nodes matches Some(nodes) ==> forall|i: int|
            0 <= i < nodes@.len() ==> (#[trigger] nodes@[i]).translation.wf(),
    ensures
        final(w).wf(),
        final(w).screen == old(w).screen,
        final(w).next_screen == old(w).next_screen,
        final(w).sun_spawned == old(w).sun_spawned,
        final(w).loss_timer == old(w).loss_timer,
        final(w).elapsed_ms == old(w).elapsed_ms,
        ({
            let ready = old(w).screen == Screen::Playing && old(w).elapsed_ms
                >= SCENE_SPAWN_DELAY_MS && old(w).current_scene.0 is None
                && city_nodes is Some;
            &&& (!ready ==> r is Ok && *final(w) == *old(w))
            &&& (ready ==> {
                let nodes = city_nodes->Some_0;
                &&& (r is Err <==> taxi_loaded && !(exists|g: usize| group_present(nodes@, g)))
                &&& (r is Err ==> *final(w) == *old(w) && r->Err_0 == PathError::NoRobberPath)
                &&& (r is Ok ==> {
                    &&& final(w).current_scene == CurrentScene(Some(SceneKey::City))
                    &&& final(w).scene_spawned
                    &&& final(w).camera_points@ == camera_points_of(nodes@)
                    &&& final(w).camera_icons@.len() == camera_points_of(nodes@).len()
                    &&& (forall|i: int|
                        0 <= i < final(w).camera_icons@.len()
                            ==> #[trigger] final(w).camera_icons@[i] == (CameraIcon {
                            relative_to: TranslationRelativeTo(i as usize, icon_offset()),
                            pos: zero_vec(),
                        }))
                    &&& (!taxi_loaded ==> final(w).robber is None)
                    &&& (taxi_loaded ==> (final(w).robber matches Some(rb) && (exists|g: usize|
                        #![auto]
                        group_present(nodes@, g) && path_for_group(nodes@, g, rb.path.points@))
                            && rb.path.step == 0 && rb.path.points@.len() >= 1 && rb.pos
                            == rb.path.points@[0] && rb.facing == zero_vec()
                            && !rb.finish_announced))
                })
            })
        }),
{
    if !(w.screen == Screen::Playing) {
        return Ok(());
    }
    if w.elapsed_ms < SCENE_SPAWN_DELAY_MS {
        return Ok(());
    }
    if w.current_scene.0.is_some() {
        return Ok(());
    }
    let nodes = match city_nodes {
        None => {
            return Ok(());
        },
        Some(nodes) => nodes,
    };
    let mut new_robber: Option<Robber> = None;
    if taxi_loaded {
        match get_random_robber_path(nodes) {
            Err(e) => {
                return Err(e);
            },
            Ok(points) => {
                let start = points[0];
                let rb = Robber {
                    pos: start,
                    facing: Vec3Fix::new(0, 0, 0),
                    path: Path { points, step: 0 },
                    finish_announced: false,
                };
                proof {
                    assert forall|i: int| 0 <= i < rb.path.points@.len() implies (
                    #[trigger] rb.path.points@[i]).wf() by {
                        assert(point_from_scene(nodes@, rb.path.points@[i]));
                        let k = choose|k: int|
                            0 <= k < nodes@.len() && (#[trigger] nodes@[k]).translation
                                == rb.path.points@[i];
                    }
                    assert(rb.wf());
                }
                new_robber = Some(rb);
            },
        }
    }
    let cps = collect_camera_points(nodes);
    let mut icons: Vec<CameraIcon> = Vec::new();
    let m = cps.len();
    let mut i: usize = 0;
    while i < m
        invariant
            0 <= i <= m,
            icons@.len() == i,
            forall|j: int|
                0 <= j < i ==> #[trigger] icons@[j] == (CameraIcon {
                    relative_to: TranslationRelativeTo(j as usize, icon_offset()),
                    pos: zero_vec(),
                }),
        decreases m - i,
    {
        icons.push(
            CameraIcon {
                relative_to: TranslationRelativeTo(i, Vec3Fix::new(0, 250, 0)),
                pos: Vec3Fix::new(0, 0, 0),
            },
        );
        i = i + 1;
    }
    proof {
        lemma_camera_points_wf(nodes@);
    }
    w.current_scene = CurrentScene(Some(SceneKey::City));
    w.scene_spawned = true;
    w.camera_points = cps;
    w.camera_icons = icons;
    w.robber = new_robber;
    Ok(())
}

/// Keep each billboarded icon at its anchor's position plus its offset.
pub fn put_relative(w: &mut GameWorld)
    requires
        old(w).wf(),
    ensures
        final(w).wf(),
        *final(w) == (GameWorld { camera_icons: final(w).camera_icons, ..*old(w) }),
        final(w).camera_icons@.len() == old(w).camera_icons@.len(),
        forall|i: int|
            0 <= i < final(w).camera_icons@.len() ==> #[trigger] final(w).camera_icons@[i]
                == (CameraIcon {
                relative_to: old(w).camera_icons@[i].relative_to,
                pos: old(w).camera_points@[old(w).camera_icons@[i].relative_to.0 as int].pos.add_spec(
                    old(w).camera_icons@[i].relative_to.1,
                ),
            }),
{
    let n = w.camera_icons.len();
    let mut updated: Vec<CameraIcon> = Vec::new();
    let mut i: usize = 0;
    while i < n
        invariant
            n == w.camera_icons@.len(),
            w.wf(),
            0 <= i <= n,
            updated@.len() == i,
            forall|j: int|
                0 <= j < i ==> #[trigger] updated@[j] == (CameraIcon {
                    relative_to: w.camera_icons@[j].relative_to,
                    pos: w.camera_points@[w.camera_icons@[j].relative_to.0 as int].pos.add_spec(
                        w.camera_icons@[j].relative_to.1,
                    ),
                }),
        decreases n - i,
    {
        let icon = w.camera_icons[i];
        let TranslationRelativeTo(anchor, offset) = icon.relative_to;
        let base = w.camera_points[anchor].pos;
        updated.push(CameraIcon { relative_to: icon.relative_to, pos: base.add(offset) });
        i = i + 1;
    }
    w.camera_icons = updated;
}

/// Saturating add for the world clock.
fn sat_add(a: u64, b: u64) -> (r: u64)
    ensures
        r == if a + b > u64::MAX {
            u64::MAX as int
        } else {
            a + b
        },
{
    if a > u64::MAX - b {
        u64::MAX
    } else {
        a + b
    }
}

/// The distance covered in one tick: speed (milliunits per second) times the
/// tick's duration (milliseconds), saturating at `u64::MAX`.
pub open spec fn spec_travel(speed: int, dt_ms: int) -> int {
    if speed * dt_ms / 1000 > u64::MAX {
        u64::MAX as int
    } else {
        speed * dt_ms / 1000
    }
}

/// The distance the robber covers in a tick of `dt_ms`.
pub fn travel_distance(speed: u64, dt_ms: u64) -> (r: u64)
    ensures
        r == spec_travel(speed as int, dt_ms as int),
{
    proof {
        assert((speed as u128) * (dt_ms as u128) == (speed as int) * (dt_ms as int) && (
        speed as u128) * (dt_ms as u128) <= u128::MAX) by (nonlinear_arith)
            requires
                0 <= speed <= u64::MAX,
                0 <= dt_ms <= u64::MAX,
        ;
    }
    let p = (speed as u128) * (dt_ms as u128) / 1000;
    if p > u64::MAX as u128 {
        u64::MAX
    } else {
        p as u64
    }
}

/// An injected transition request (a keyboard shortcut, or the end screens'
/// acknowledgment); consumed at the frame's fixed point.
pub fn request_transition(w: &mut GameWorld, to: Screen)
    requires
        old(w).wf(),
    ensures
        final(w).wf(),
        *final(w) == (GameWorld { next_screen: Some(to), ..*old(w) }),
{
    w.next_screen = Some(to);
}

/// One simulation tick while `Playing`: the clock always advances; in
/// `Playing` the robber moves along its path (requesting `Win` the tick its
/// path completes), the visibility observation updates the loss countdown
/// strictly before the decoupled threshold check (which requests `Lose`; a
/// loss outranks a win landing on the same tick), and the camera icons follow
/// their anchors. Outside `Playing` nothing but the clock changes.
pub fn game_tick(w: &mut GameWorld, dt_ms: u64, robber_visible: bool)
    requires
        old(w).wf(),
    ensures
        final(w).wf(),
        final(w).screen == old(w).screen,
        final(w).elapsed_ms == if old(w).elapsed_ms + dt_ms > u64::MAX {
            u64::MAX as int
        } else {
            old(w).elapsed_ms + dt_ms
        },
        final(w).current_scene == old(w).current_scene,
        final(w).scene_spawned == old(w).scene_spawned,
        final(w).camera_points == old(w).camera_points,
        final(w).sun_spawned == old(w).sun_spawned,
        old(w).screen != Screen::Playing ==> *final(w) == (GameWorld {
            elapsed_ms: final(w).elapsed_ms,
            ..*old(w)
        }),
        old(w).screen == Screen::Playing ==> ({
            let travel = spec_travel(ROBBER_SPEED_MU_PER_S as int, dt_ms as int);
            let win_req = old(w).robber matches Some(r) && spec_robber_tick(r, travel).1;
            let timer1 = spec_in_view(old(w).loss_timer, robber_visible, dt_ms as int);
            let lose_req = spec_timer_stopped(timer1);
            &&& final(w).robber == match old(w).robber {
                Some(r) => Some(spec_robber_tick(r, travel).0),
                None => None::<Robber>,
            }
            &&& final(w).loss_timer == timer1
            &&& final(w).next_screen == if lose_req {
                Some(Screen::Lose)
            } else if win_req {
                Some(Screen::Win)
            } else {
                old(w).next_screen
            }
            &&& final(w).camera_icons@.len() == old(w).camera_icons@.len()
            &&& (forall|i: int|
                0 <= i < final(w).camera_icons@.len() ==> #[trigger] final(w).camera_icons@[i]
                    == (CameraIcon {
                    relative_to: old(w).camera_icons@[i].relative_to,
                    pos: old(w).camera_points@[old(w).camera_icons@[i].relative_to.0 as int].pos.add_spec(
                        old(w).camera_icons@[i].relative_to.1,
                    ),
                }))
        }),
{
    let e = sat_add(w.elapsed_ms, dt_ms);
    w.elapsed_ms = e;
    if !(w.screen == Screen::Playing) {
        return ;
    }
    let travel = travel_distance(ROBBER_SPEED_MU_PER_S, dt_ms);
    let mut win_req = false;
    match &mut w.robber {
        Some(r) => {
            let finished = robber_tick(r, travel);
            if finished.is_some() {
                win_req = true;
            }
        },
        None => {},
    }
    in_view(&mut w.loss_timer, robber_visible, dt_ms);
    let lose_req = timer_stopped(&w.loss_timer);
    if lose_req {
        w.next_screen = Some(Screen::Lose);
    } else if win_req {
        w.next_screen = Some(Screen::Win);
    }
    put_relative(w);
}

/// Consume the pending transition request at the frame's fixed point. A valid
/// request moves the screen; leaving `Playing` first tears the whole session
/// down — the scene subtree, the camera points and icons, the sun, the
/// tracked actor and the loss countdown are despawned and `CurrentScene` is
/// cleared, however far the session progressed — and entering `Playing`
/// spawns the sun. An invalid request is dropped.
pub fn apply_screen_transition(w: &mut GameWorld)
    requires
        old(w).wf(),
    ensures
        final(w).wf(),
        final(w).next_screen is None,
        final(w).elapsed_ms == old(w).elapsed_ms,
        old(w).next_screen is None ==> *final(w) == (GameWorld { next_screen: None, ..*old(w) }),
        old(w).next_screen matches Some(t) ==> (!spec_valid_transition(old(w).screen, t)
            ==> *final(w) == (GameWorld { next_screen: None, ..*old(w) })),
        old(w).next_screen matches Some(t) ==> (spec_valid_transition(old(w).screen, t) ==> {
            &&& final(w).screen == t
            &&& (old(w).screen == Screen::Playing ==> torn_down(*final(w)) && scene_entity_count(
                *final(w),
            ) == 0)
            &&& (t == Screen::Playing ==> *final(w) == (GameWorld {
                screen: t,
                next_screen: None,
                sun_spawned: true,
                ..*old(w)
            }))
            &&& (old(w).screen != Screen::Playing && t != Screen::Playing ==> *final(w)
                == (GameWorld { screen: t, next_screen: None, ..*old(w) }))
        }),
{
    let req = w.next_screen;
    w.next_screen = None;
    match req {
        None => {},
        Some(t) => {
            if valid_transition(w.screen, t) {
                if w.screen == Screen::Playing {
                    w.current_scene = CurrentScene(None);
                    w.scene_spawned = false;
                    w.camera_points = Vec::new();
                    w.camera_icons = Vec::new();
                    w.sun_spawned = false;
                    w.robber = None;
                    w.loss_timer = None;
                }
                if t == Screen::Playing {
                    w.sun_spawned = true;
                }
                w.screen = t;
            }
        },
    }
}

} // verus!
