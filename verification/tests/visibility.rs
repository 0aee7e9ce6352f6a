use chase_core::visibility::LOSS_THRESHOLD_MS;
use chase_core::visibility::LostTime;
use chase_core::visibility::in_view;
use chase_core::visibility::timer_stopped;

#[test]
fn unseen_creates_then_accumulates() {
    let mut timer: Option<LostTime> = None;
    // the creating tick starts the countdown at zero
    in_view(&mut timer, false, 10_000);
    assert_eq!(timer, Some(LostTime { elapsed_ms: 0 }));
    assert!(!timer_stopped(&timer));
    // three more unseen 10-second ticks reach the 30-second threshold
    in_view(&mut timer, false, 10_000);
    in_view(&mut timer, false, 10_000);
    assert_eq!(timer, Some(LostTime { elapsed_ms: 20_000 }));
    assert!(!timer_stopped(&timer));
    in_view(&mut timer, false, 10_000);
    assert_eq!(timer, Some(LostTime { elapsed_ms: 30_000 }));
    assert!(timer_stopped(&timer));
}

#[test]
fn reacquisition_resets_without_carry_over() {
    // unseen for 29.9 cumulative seconds...
    let mut timer: Option<LostTime> = None;
    in_view(&mut timer, false, 0);
    in_view(&mut timer, false, 29_900);
    assert_eq!(timer, Some(LostTime { elapsed_ms: 29_900 }));
    assert!(!timer_stopped(&timer));
    // ...then seen once: the countdown is destroyed...
    in_view(&mut timer, true, 16);
    assert_eq!(timer, None);
    // ...and going unseen again starts over at zero.
    in_view(&mut timer, false, 16);
    assert_eq!(timer, Some(LostTime { elapsed_ms: 0 }));
    assert!(!timer_stopped(&timer));
}

#[test]
fn seen_keeps_no_countdown() {
    let mut timer: Option<LostTime> = None;
    in_view(&mut timer, true, 1000);
    assert_eq!(timer, None);
    assert!(!timer_stopped(&timer));
}

#[test]
fn elapsed_caps_at_the_threshold() {
    let mut timer: Option<LostTime> = Some(LostTime { elapsed_ms: 29_000 });
    in_view(&mut timer, false, u64::MAX);
    assert_eq!(timer, Some(LostTime { elapsed_ms: LOSS_THRESHOLD_MS }));
    assert!(timer_stopped(&timer));
    in_view(&mut timer, false, 1);
    assert_eq!(timer, Some(LostTime { elapsed_ms: LOSS_THRESHOLD_MS }));
}

#[test]
fn threshold_check_never_mutates() {
    let timer = Some(LostTime { elapsed_ms: 12_345 });
    assert!(!timer_stopped(&timer));
    assert_eq!(timer, Some(LostTime { elapsed_ms: 12_345 }));
}
