//! Development-mode switches.
//!
//! A dev build can flip into a free-flying camera mode. The decisions — when
//! the mode flips, which cameras are active in each mode, how fast the fly
//! camera moves — stand here; the camera entities themselves live outside.

use vstd::prelude::*;

verus! {

/// Whether the free-flying dev camera is engaged.
#[derive(Clone, Copy, Debug, PartialEq, Eq, Structural)]
pub enum DevState {
    Off,
    On,
}

/// Milliunits per second the fly camera moves when engaged.
pub const FLYCAM_SPEED_MU_PER_S: u64 = 10_000;

/// The dev state after a toggle key observation.
pub open spec fn spec_switch(s: DevState, toggle_pressed: bool) -> DevState {
    if toggle_pressed {
        match s {
            DevState::Off => DevState::On,
            DevState::On => DevState::Off,
        }
    } else {
        s
    }
}

/// Flip dev mode when the toggle key was just pressed; otherwise keep it.
pub fn switch_to_dev_mode(s: DevState, toggle_pressed: bool) -> (r: DevState)
    ensures
        r == spec_switch(s, toggle_pressed),
{
    if toggle_pressed {
        match s {
            DevState::Off => DevState::On,
            DevState::On => DevState::Off,
        }
    } else {
        s
    }
}

/// Which cameras render after a dev-state change: the fly camera exactly in
/// dev mode, every other camera exactly outside it.
pub fn cam_active(is_flycam: bool, dev_on: bool) -> (r: bool)
    ensures
        r == (is_flycam == dev_on),
{
    is_flycam == dev_on
}

/// The fly camera's speed: full in dev mode, parked otherwise.
pub fn flycam_speed(dev_on: bool) -> (r: u64)
    ensures
        r == if dev_on {
            FLYCAM_SPEED_MU_PER_S as int
        } else {
            0
        },
{
    if dev_on {
        FLYCAM_SPEED_MU_PER_S
    } else {
        0
    }
}

} // verus!
