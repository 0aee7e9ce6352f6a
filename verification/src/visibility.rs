//! Visibility tracker and loss timer.
//!
//! Each tick the game observes whether the tracked entity is currently
//! rendered. While it is unseen a single `LostTime` countdown accumulates the
//! unseen milliseconds (capped at the threshold); the moment it is seen again
//! the countdown is destroyed — no partial credit carries over. A separate,
//! pure observer (`timer_stopped`) reports when the countdown has reached the
//! threshold; it never mutates the countdown, which keeps accumulation and
//! decision decoupled.

use vstd::prelude::*;

verus! {

/// Milliseconds the tracked entity may stay unseen before the game is lost.
pub const LOSS_THRESHOLD_MS: u64 = 30_000;

/// The loss countdown. At most one exists at a time; its presence is the sole
/// signal that the countdown is active.
#[derive(Clone, Copy, Debug, PartialEq, Eq, Structural)]
pub struct LostTime {
    /// Unseen time so far, in milliseconds, capped at `LOSS_THRESHOLD_MS`.
    pub elapsed_ms: u64,
}

/// What one visibility observation does to the countdown: seen destroys it,
/// unseen creates it at zero or advances it by the tick's duration, capped at
/// the threshold.
pub open spec fn spec_in_view(timer: Option<LostTime>, visible: bool, dt_ms: int) -> Option<
    LostTime,
> {
    if visible {
        None
    } else {
        match timer {
            None => Some(LostTime { elapsed_ms: 0 }),
            Some(t) => Some(
                LostTime {
                    elapsed_ms: if t.elapsed_ms + dt_ms >= LOSS_THRESHOLD_MS {
                        LOSS_THRESHOLD_MS
                    } else {
                        (t.elapsed_ms + dt_ms) as u64
                    },
                },
            ),
        }
    }
}

/// The countdown has run out.
pub open spec fn spec_timer_stopped(timer: Option<LostTime>) -> bool {
    timer matches Some(t) && t.elapsed_ms >= LOSS_THRESHOLD_MS
}

/// One visibility observation of the tracked entity.
pub fn in_view(timer: &mut Option<LostTime>, visible: bool, dt_ms: u64)
    ensures
        *final(timer) == spec_in_view(*old(timer), visible, dt_ms as int),
        visible ==> *final(timer) is None,
        !visible && *old(timer) is None ==> *final(timer) == Some(LostTime { elapsed_ms: 0 }),
{
    if visible {
        *timer = None;
    } else {
        match timer {
            None => {
                *timer = Some(LostTime { elapsed_ms: 0 });
            },
            Some(t) => {
                let e = t.elapsed_ms;
                if dt_ms >= LOSS_THRESHOLD_MS || e >= LOSS_THRESHOLD_MS - dt_ms {
                    t.elapsed_ms = LOSS_THRESHOLD_MS;
                } else {
                    t.elapsed_ms = e + dt_ms;
                }
            },
        }
    }
}

/// The decoupled threshold check: pure observation, no mutation. True exactly
/// when a countdown exists and has accumulated the full threshold.
pub fn timer_stopped(timer: &Option<LostTime>) -> (lose: bool)
    ensures
        lose == spec_timer_stopped(*timer),
{
    match timer {
        Some(t) => t.elapsed_ms >= LOSS_THRESHOLD_MS,
        None => false,
    }
}

/// A run of consecutive unseen observations.
pub open spec fn run_unseen(timer: Option<LostTime>, dts: Seq<int>) -> Option<LostTime>
    decreases dts.len(),
{
    if dts.len() == 0 {
        timer
    } else {
        run_unseen(spec_in_view(timer, false, dts.first()), dts.drop_first())
    }
}

/// The total of a sequence of durations.
pub open spec fn total(dts: Seq<int>) -> int
    decreases dts.len(),
{
    if dts.len() == 0 {
        0
    } else {
        dts.first() + total(dts.drop_first())
    }
}

/// All durations non-negative.
pub open spec fn all_nonneg(dts: Seq<int>) -> bool {
    forall|i: int| 0 <= i < dts.len() ==> dts[i] >= 0
}

/// A live countdown accumulates unseen time exactly: after a run of unseen
/// ticks it holds the old elapsed plus the run's total, capped.
pub proof fn lemma_unseen_accumulates_from(t: LostTime, dts: Seq<int>)
    requires
        all_nonneg(dts),
        t.elapsed_ms <= LOSS_THRESHOLD_MS,
    ensures
        run_unseen(Some(t), dts) == Some(
            LostTime {
                elapsed_ms: if t.elapsed_ms + total(dts) >= LOSS_THRESHOLD_MS {
                    LOSS_THRESHOLD_MS
                } else {
                    (t.elapsed_ms + total(dts)) as u64
                },
            },
        ),
    decreases dts.len(),
{
    if dts.len() == 0 {
        assert(t == (LostTime { elapsed_ms: t.elapsed_ms }));
    } else {
        let t1 = spec_in_view(Some(t), false, dts.first())->Some_0;
        assert(all_nonneg(dts.drop_first())) by {
            assert(forall|i: int|
                0 <= i < dts.len() - 1 ==> #[trigger] dts.drop_first()[i] == dts[i + 1]);
        }
        assert(total(dts.drop_first()) >= 0) by {
            lemma_total_nonneg(dts.drop_first());
        }
        lemma_unseen_accumulates_from(t1, dts.drop_first());
    }
}

/// A total of non-negative durations is non-negative.
pub proof fn lemma_total_nonneg(dts: Seq<int>)
    requires
        all_nonneg(dts),
    ensures
        total(dts) >= 0,
    decreases dts.len(),
{
    if dts.len() > 0 {
        assert(all_nonneg(dts.drop_first())) by {
            assert(forall|i: int|
                0 <= i < dts.len() - 1 ==> #[trigger] dts.drop_first()[i] == dts[i + 1]);
        }
        lemma_total_nonneg(dts.drop_first());
    }
}

/// With no countdown running, a run of unseen ticks creates one and leaves it
/// holding the unseen time after the creating tick, capped at the threshold:
/// once that cumulative time reaches the threshold the loss check fires, and
/// a single seen tick anywhere in between would have destroyed the countdown
/// (`spec_in_view(_, true, _) is None`) — no carry-over.
pub proof fn lemma_unseen_accumulates(dts: Seq<int>)
    requires
        all_nonneg(dts),
        dts.len() >= 1,
    ensures
        run_unseen(None, dts) == Some(
            LostTime {
                elapsed_ms: if total(dts.drop_first()) >= LOSS_THRESHOLD_MS {
                    LOSS_THRESHOLD_MS
                } else {
                    total(dts.drop_first()) as u64
                },
            },
        ),
        spec_timer_stopped(run_unseen(None, dts)) <==> total(dts.drop_first())
            >= LOSS_THRESHOLD_MS,
{
    assert(all_nonneg(dts.drop_first())) by {
        assert(forall|i: int|
            0 <= i < dts.len() - 1 ==> #[trigger] dts.drop_first()[i] == dts[i + 1]);
    }
    lemma_unseen_accumulates_from(LostTime { elapsed_ms: 0 }, dts.drop_first());
    lemma_total_nonneg(dts.drop_first());
}

} // verus!
