//! Asset keys and their file paths.
//!
//! The engine loads each asset from a fixed path keyed by a small enum. The
//! tables here are the computable part of that registration; the loading
//! itself is I/O and lives outside the library.

use vstd::prelude::*;

verus! {

/// The scene assets the game knows.
#[derive(Clone, Copy, Debug, PartialEq, Eq, Structural)]
pub enum SceneKey {
    Taxi,
    Ambulance,
    Robber,
    City,
}

/// The images the game loads.
#[derive(Clone, Copy, Debug, PartialEq, Eq, Structural)]
pub enum ImageKey {
    Splash,
    CameraIcon,
    UiButton,
    UiHeader,
}

/// The fonts the game loads.
#[derive(Clone, Copy, Debug, PartialEq, Eq, Structural)]
pub enum FontKey {
    FontAwesome,
}

/// The asset path a scene key is loaded from; the robber scene has no asset
/// of its own (the taxi model plays its part).
pub fn scene_path(key: SceneKey) -> (r: Option<&'static str>)
    ensures
        r is Some <==> key != SceneKey::Robber,
        key == SceneKey::Taxi ==> r->Some_0@ == "scenes/taxi.gltf"@,
        key == SceneKey::Ambulance ==> r->Some_0@ == "dump/ambulance.gltf"@,
        key == SceneKey::City ==> r->Some_0@ == "dump/city.gltf"@,
{
    match key {
        SceneKey::Taxi => Some("scenes/taxi.gltf"),
        SceneKey::Ambulance => Some("dump/ambulance.gltf"),
        SceneKey::Robber => None,
        SceneKey::City => Some("dump/city.gltf"),
    }
}

/// The asset path an image key is loaded from.
pub fn image_path(key: ImageKey) -> (r: &'static str)
    ensures
        key == ImageKey::Splash ==> r@ == "images/splash.png"@,
        key == ImageKey::CameraIcon ==> r@ == "images/camera_icon.png"@,
        key == ImageKey::UiButton ==> r@ == "images/ui/button_rectangle_depth_gradient.png"@,
        key == ImageKey::UiHeader ==> r@ == "images/ui/button_rectangle_line.png"@,
{
    match key {
        ImageKey::Splash => "images/splash.png",
        ImageKey::CameraIcon => "images/camera_icon.png",
        ImageKey::UiButton => "images/ui/button_rectangle_depth_gradient.png",
        ImageKey::UiHeader => "images/ui/button_rectangle_line.png",
    }
}

/// The asset path a font key is loaded from.
pub fn font_path(key: FontKey) -> (r: &'static str)
    ensures
        key == FontKey::FontAwesome ==> r@ == "fonts/fa_6_free-solid-900.otf"@,
{
    match key {
        FontKey::FontAwesome => "fonts/fa_6_free-solid-900.otf",
    }
}

} // verus!
