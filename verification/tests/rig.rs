use chase_core::assets::FontKey;
use chase_core::assets::ImageKey;
use chase_core::assets::SceneKey;
use chase_core::assets::font_path;
use chase_core::assets::image_path;
use chase_core::assets::scene_path;
use chase_core::camera::closest_hit;
use chase_core::camera::pan_delta;
use chase_core::camera::zoom_delta;
use chase_core::camera::zoom_scale;
use chase_core::config::CameraKey;
use chase_core::config::key_to_dir;
use chase_core::config::key_to_zoom;
use chase_core::dev::DevState;
use chase_core::dev::cam_active;
use chase_core::dev::flycam_speed;
use chase_core::dev::switch_to_dev_mode;
use chase_core::geom::Vec3Fix;

#[test]
fn key_directions_are_mirrored_unit_axes() {
    assert_eq!(key_to_dir(CameraKey::KeyW), Vec3Fix::new(0, 0, -1000));
    assert_eq!(key_to_dir(CameraKey::KeyS), Vec3Fix::new(0, 0, 1000));
    assert_eq!(key_to_dir(CameraKey::KeyA), Vec3Fix::new(-1000, 0, 0));
    assert_eq!(key_to_dir(CameraKey::KeyD), Vec3Fix::new(1000, 0, 0));
    assert_eq!(key_to_dir(CameraKey::KeyQ), Vec3Fix::new(0, 0, 0));
    assert_eq!(key_to_zoom(CameraKey::KeyQ), -1);
    assert_eq!(key_to_zoom(CameraKey::KeyE), 1);
    assert_eq!(key_to_zoom(CameraKey::KeyW), 0);
}

#[test]
fn pressed_keys_sum() {
    let keys = vec![CameraKey::KeyW, CameraKey::KeyD, CameraKey::Other];
    assert_eq!(pan_delta(&keys), Vec3Fix::new(1000, 0, -1000));
    assert_eq!(pan_delta(&vec![]), Vec3Fix::new(0, 0, 0));
    let keys = vec![CameraKey::KeyQ, CameraKey::KeyE, CameraKey::KeyE];
    assert_eq!(zoom_delta(&keys), 1);
}

#[test]
fn zoom_clamps_to_the_rig_bounds() {
    assert_eq!(zoom_scale(5000, 1), 5050);
    assert_eq!(zoom_scale(5000, -2), 4900);
    assert_eq!(zoom_scale(2990, -1), 3000);
    assert_eq!(zoom_scale(89_990, 1), 90_000);
    assert_eq!(zoom_scale(0, 0), 3000);
}

#[test]
fn first_nearest_hit_wins() {
    assert_eq!(closest_hit(&vec![]), None);
    assert_eq!(closest_hit(&vec![(5, 10)]), Some(0));
    assert_eq!(closest_hit(&vec![(5, 10), (3, 20), (3, 30), (9, 40)]), Some(1));
    assert_eq!(closest_hit(&vec![(2, 1), (2, 2)]), Some(0));
}

#[test]
fn dev_mode_switches() {
    assert_eq!(switch_to_dev_mode(DevState::Off, true), DevState::On);
    assert_eq!(switch_to_dev_mode(DevState::On, true), DevState::Off);
    assert_eq!(switch_to_dev_mode(DevState::Off, false), DevState::Off);
    assert_eq!(switch_to_dev_mode(DevState::On, false), DevState::On);
    assert!(cam_active(true, true));
    assert!(!cam_active(true, false));
    assert!(!cam_active(false, true));
    assert!(cam_active(false, false));
    assert_eq!(flycam_speed(true), 10_000);
    assert_eq!(flycam_speed(false), 0);
}

#[test]
fn asset_paths() {
    assert_eq!(scene_path(SceneKey::Taxi), Some("scenes/taxi.gltf"));
    assert_eq!(scene_path(SceneKey::Ambulance), Some("dump/ambulance.gltf"));
    assert_eq!(scene_path(SceneKey::City), Some("dump/city.gltf"));
    assert_eq!(scene_path(SceneKey::Robber), None);
    assert_eq!(image_path(ImageKey::Splash), "images/splash.png");
    assert_eq!(image_path(ImageKey::CameraIcon), "images/camera_icon.png");
    assert_eq!(image_path(ImageKey::UiButton), "images/ui/button_rectangle_depth_gradient.png");
    assert_eq!(image_path(ImageKey::UiHeader), "images/ui/button_rectangle_line.png");
    assert_eq!(font_path(FontKey::FontAwesome), "fonts/fa_6_free-solid-900.otf");
}
