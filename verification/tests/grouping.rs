use chase_core::geom::Vec3Fix;
use chase_core::path_index::PathError;
use chase_core::path_index::SceneNode;
use chase_core::path_index::get_random_robber_path;
use chase_core::path_index::get_robber_path_groups;
use chase_core::path_index::get_robber_paths;

fn node(name: &str, x: i64, y: i64, z: i64) -> SceneNode {
    SceneNode { name: name.as_bytes().to_vec(), translation: Vec3Fix::new(x, y, z) }
}

#[test]
fn groups_by_group_and_orders_by_suffix() {
    // Robber1Point2 at B, Robber1Point1 at A, Robber2Point1 at C:
    // group 1 is [A, B], group 2 is [C]; malformed names change nothing.
    let a = Vec3Fix::new(1, 0, 0);
    let b = Vec3Fix::new(2, 0, 0);
    let c = Vec3Fix::new(3, 0, 0);
    let nodes = vec![
        node("Robber1Point2", 2, 0, 0),
        node("Robber1Point1", 1, 0, 0),
        node("Robber2Point1", 3, 0, 0),
        node("House", 9, 9, 9),
        node("Robber1Point2Point3", 8, 8, 8),
    ];
    let paths = get_robber_paths(&nodes);
    assert_eq!(paths.len(), 2);
    assert_eq!(paths[0], vec![a, b]);
    assert_eq!(paths[1], vec![c]);

    let groups = get_robber_path_groups(&nodes);
    assert_eq!(groups.len(), 2);
    assert_eq!(groups[0].group, 1);
    assert_eq!(groups[0].points, vec![a, b]);
    assert_eq!(groups[1].group, 2);
    assert_eq!(groups[1].points, vec![c]);
}

#[test]
fn suffixes_sort_numerically_not_lexically() {
    let nodes = vec![
        node("Robber1Point10", 10, 0, 0),
        node("Robber1Point9", 9, 0, 0),
        node("Robber1Point1", 1, 0, 0),
    ];
    let paths = get_robber_paths(&nodes);
    assert_eq!(paths.len(), 1);
    assert_eq!(
        paths[0],
        vec![Vec3Fix::new(1, 0, 0), Vec3Fix::new(9, 0, 0), Vec3Fix::new(10, 0, 0)]
    );
}

#[test]
fn group_numbers_come_out_ascending() {
    let nodes = vec![
        node("Robber7Point1", 7, 0, 0),
        node("Robber2Point1", 2, 0, 0),
        node("Robber5Point1", 5, 0, 0),
    ];
    let groups = get_robber_path_groups(&nodes);
    let ids: Vec<usize> = groups.iter().map(|g| g.group).collect();
    assert_eq!(ids, vec![2, 5, 7]);
}

#[test]
fn empty_scene_yields_no_paths_and_an_error() {
    let nodes = vec![node("House", 0, 0, 0), node("Tree", 1, 1, 1)];
    assert_eq!(get_robber_paths(&nodes).len(), 0);
    assert_eq!(get_random_robber_path(&nodes), Err(PathError::NoRobberPath));
}

#[test]
fn random_pick_returns_the_only_group_exactly() {
    // With a single group the random pick has exactly one possible answer:
    // this fails if the picker returned anything but a group of the scene.
    let nodes = vec![node("Robber3Point1", 1, 2, 3), node("Robber3Point2", 4, 5, 6)];
    let picked = get_random_robber_path(&nodes).unwrap();
    assert_eq!(picked, vec![Vec3Fix::new(1, 2, 3), Vec3Fix::new(4, 5, 6)]);
}

#[test]
fn random_pick_is_one_of_the_groups() {
    let nodes = vec![node("Robber1Point1", 1, 0, 0), node("Robber2Point1", 2, 0, 0)];
    let paths = get_robber_paths(&nodes);
    for _ in 0..20 {
        let picked = get_random_robber_path(&nodes).unwrap();
        assert!(paths.contains(&picked));
    }
}

#[test]
fn duplicate_suffixes_all_kept() {
    let nodes = vec![
        node("Robber1Point1", 1, 0, 0),
        node("Robber1Point1", 2, 0, 0),
        node("Robber1Point0", 0, 0, 0),
    ];
    let paths = get_robber_paths(&nodes);
    assert_eq!(paths.len(), 1);
    assert_eq!(paths[0].len(), 3);
    assert_eq!(paths[0][0], Vec3Fix::new(0, 0, 0));
}
