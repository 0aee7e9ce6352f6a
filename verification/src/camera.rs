//! Camera rig decisions.
//!
//! The rig's float work — ray casting against icon quads, quaternions, the
//! orthographic projection — lives outside the library. What it decides on
//! plain values stands here: the summed pan and zoom of the pressed keys, the
//! clamped zoom scale, and which ray hit wins a jump-to-camera click.

use vstd::prelude::*;

use crate::config::CameraKey;
use crate::config::spec_key_to_dir;
use crate::config::spec_key_to_zoom;
use crate::geom::Vec3Fix;

verus! {

/// Milliunits the camera pans per tick per pressed key.
pub const CAMERA_STEP_MU: i64 = 50;

/// Milliunits of scale the camera zooms per tick per pressed key.
pub const ZOOM_STEP_MU: i64 = 50;

/// The smallest orthographic scale, in milliunits.
pub const ZOOM_MIN_MU: i64 = 3_000;

/// The largest orthographic scale, in milliunits.
pub const ZOOM_MAX_MU: i64 = 90_000;

/// The summed pan direction of a set of pressed keys.
pub open spec fn spec_pan_delta(keys: Seq<CameraKey>) -> Vec3Fix
    decreases keys.len(),
{
    if keys.len() == 0 {
        Vec3Fix { x: 0, y: 0, z: 0 }
    } else {
        spec_pan_delta(keys.drop_last()).add_spec(spec_key_to_dir(keys.last()))
    }
}

/// The summed zoom of a set of pressed keys.
pub open spec fn spec_zoom_delta(keys: Seq<CameraKey>) -> int
    decreases keys.len(),
{
    if keys.len() == 0 {
        0
    } else {
        spec_zoom_delta(keys.drop_last()) + spec_key_to_zoom(keys.last())
    }
}

/// The sum of the pan directions of the pressed keys (the rig normalizes and
/// yaws it afterwards).
pub fn pan_delta(keys: &Vec<CameraKey>) -> (r: Vec3Fix)
    requires
        keys@.len() <= 1_000_000,
    ensures
        r == spec_pan_delta(keys@),
        r.bounded(1000 * keys@.len() as int),
{
    let mut r = Vec3Fix { x: 0, y: 0, z: 0 };
    let n = keys.len();
    let mut i: usize = 0;
    while i < n
        invariant
            n == keys@.len() <= 1_000_000,
            0 <= i <= n,
            r == spec_pan_delta(keys@.take(i as int)),
            r.bounded(1000 * i as int),
        decreases n - i,
    {
        let d = crate::config::key_to_dir(keys[i]);
        r = Vec3Fix { x: r.x + d.x, y: r.y + d.y, z: r.z + d.z };
        proof {
            assert(keys@.take(i + 1 as int).drop_last() =~= keys@.take(i as int));
            assert(keys@.take(i + 1 as int).last() == keys@[i as int]);
        }
        i = i + 1;
    }
    proof {
        assert(keys@.take(n as int) =~= keys@);
    }
    r
}

/// The sum of the zoom steps of the pressed keys.
pub fn zoom_delta(keys: &Vec<CameraKey>) -> (r: i64)
    requires
        keys@.len() <= 1_000_000,
    ensures
        r == spec_zoom_delta(keys@),
        -1_000_000 <= r <= 1_000_000,
{
    let mut r: i64 = 0;
    let n = keys.len();
    let mut i: usize = 0;
    while i < n
        invariant
            n == keys@.len() <= 1_000_000,
            0 <= i <= n,
            r == spec_zoom_delta(keys@.take(i as int)),
            -(i as int) <= r <= i as int,
        decreases n - i,
    {
        let d = crate::config::key_to_zoom(keys[i]);
        r = r + d;
        proof {
            assert(keys@.take(i + 1 as int).drop_last() =~= keys@.take(i as int));
            assert(keys@.take(i + 1 as int).last() == keys@[i as int]);
        }
        i = i + 1;
    }
    proof {
        assert(keys@.take(n as int) =~= keys@);
    }
    r
}

/// The orthographic scale after one zoom tick, clamped to the rig's bounds.
pub fn zoom_scale(scale_mu: i64, delta: i64) -> (r: i64)
    requires
        -1_000_000_000 <= scale_mu <= 1_000_000_000,
        -1_000_000 <= delta <= 1_000_000,
    ensures
        ({
            let v = scale_mu + ZOOM_STEP_MU * delta;
            r == if v < ZOOM_MIN_MU {
                ZOOM_MIN_MU as int
            } else if v > ZOOM_MAX_MU {
                ZOOM_MAX_MU as int
            } else {
                v
            }
        }),
{
    let v = scale_mu + ZOOM_STEP_MU * delta;
    if v < ZOOM_MIN_MU {
        ZOOM_MIN_MU
    } else if v > ZOOM_MAX_MU {
        ZOOM_MAX_MU
    } else {
        v
    }
}

/// The winning hit of a jump-to-camera click: among the (distance, camera
/// point) hits, the first one at the smallest distance; `None` exactly when
/// nothing was hit.
pub fn closest_hit(hits: &Vec<(u64, usize)>) -> (r: Option<usize>)
    ensures
        r is None <==> hits@.len() == 0,
        r matches Some(k) ==> ({
            &&& 0 <= k < hits@.len()
            &&& forall|j: int| 0 <= j < hits@.len() ==> (#[trigger] hits@[j]).0 >= hits@[k as int].0
            &&& forall|j: int| 0 <= j < k ==> (#[trigger] hits@[j]).0 > hits@[k as int].0
        }),
{
    let n = hits.len();
    if n == 0 {
        return None;
    }
    let mut best: usize = 0;
    let mut k: usize = 1;
    while k < n
        invariant
            n == hits@.len(),
            0 <= best < k <= n,
            forall|j: int| 0 <= j < k ==> (#[trigger] hits@[j]).0 >= hits@[best as int].0,
            forall|j: int| 0 <= j < best ==> (#[trigger] hits@[j]).0 > hits@[best as int].0,
        decreases n - k,
    {
        if hits[k].0 < hits[best].0 {
            best = k;
        }
        k = k + 1;
    }
    Some(best)
}

} // verus!
