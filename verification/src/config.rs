//! Camera control key mappings.
//!
//! The camera rig pans on WASD and zooms on Q/E. The mappings below give each
//! key its contribution on plain fixed-point values; the rig's float work
//! (yaw rotation, normalization) stays outside the library.

use vstd::prelude::*;

use crate::geom::Vec3Fix;

verus! {

/// The keys the camera rig reads.
#[derive(Clone, Copy, Debug, PartialEq, Eq, Structural)]
pub enum CameraKey {
    KeyW,
    KeyA,
    KeyS,
    KeyD,
    KeyQ,
    KeyE,
    Other,
}

/// The pan direction of a key: one unit long, on the ground plane.
/// Directions are intentionally mirrored; the rig re-rotates them by its yaw.
pub open spec fn spec_key_to_dir(k: CameraKey) -> Vec3Fix {
    match k {
        CameraKey::KeyW => Vec3Fix { x: 0, y: 0, z: (-1000) as i64 },
        CameraKey::KeyS => Vec3Fix { x: 0, y: 0, z: 1000 },
        CameraKey::KeyA => Vec3Fix { x: (-1000) as i64, y: 0, z: 0 },
        CameraKey::KeyD => Vec3Fix { x: 1000, y: 0, z: 0 },
        _ => Vec3Fix { x: 0, y: 0, z: 0 },
    }
}

/// The zoom direction of a key: out on Q, in on E.
pub open spec fn spec_key_to_zoom(k: CameraKey) -> int {
    match k {
        CameraKey::KeyQ => -1,
        CameraKey::KeyE => 1,
        _ => 0,
    }
}

/// The pan direction a pressed key contributes.
pub fn key_to_dir(k: CameraKey) -> (r: Vec3Fix)
    ensures
        r == spec_key_to_dir(k),
{
    match k {
        CameraKey::KeyW => Vec3Fix { x: 0, y: 0, z: -1000 },
        CameraKey::KeyS => Vec3Fix { x: 0, y: 0, z: 1000 },
        CameraKey::KeyA => Vec3Fix { x: -1000, y: 0, z: 0 },
        CameraKey::KeyD => Vec3Fix { x: 1000, y: 0, z: 0 },
        _ => Vec3Fix { x: 0, y: 0, z: 0 },
    }
}

/// The zoom step a pressed key contributes.
pub fn key_to_zoom(k: CameraKey) -> (r: i64)
    ensures
        r == spec_key_to_zoom(k),
{
    match k {
        CameraKey::KeyQ => -1,
        CameraKey::KeyE => 1,
        _ => 0,
    }
}

} // verus!
