//! The sweeps of a sound emitter that tell the listener where a target lies.
//!
//! A sweep moves the emitter in steps of a fiftieth of a unit along one axis, starting
//! ten units to one side of the listener.

use vstd::prelude::*;
use crate::fixed::{tdiv, wide_div, Scalar, ONE};

verus! {

/// A bound that no step of a sweep exceeds.
pub const STEP_LIMIT: i32 = 1_000_000;

/// The direction in which the emitter moves.
#[derive(Clone, Copy, PartialEq, Eq, Structural, Debug)]
pub enum Sweep {
    LeftToRight,
    RightToLeft,
    BottomToTop,
    TopToBottom,
}

/// The sweeps played for a target, first the one across and then the one along.
#[derive(Clone, Copy, PartialEq, Eq, Structural, Debug)]
pub struct Cue {
    pub across: Sweep,
    pub across_by: Scalar,
    pub along: Sweep,
    pub along_by: Scalar,
}

/// The whole part of `disp`, rounded toward zero.
pub open spec fn whole(disp: int) -> int {
    tdiv(disp, ONE as int)
}

/// One more than the last step of a sweep over the distance `disp`: a step `i` is played
/// for `1 <= i < sweep_end`. Sweeps to the right and to the bottom run for a positive
/// distance, the two others for a negative one.
pub open spec fn sweep_end(sweep: Sweep, disp: int) -> int {
    match sweep {
        Sweep::LeftToRight => whole(disp) * 25,
        Sweep::BottomToTop => -(whole(disp) * 25),
        Sweep::TopToBottom => whole(disp) * 20,
        Sweep::RightToLeft => -(whole(disp) * 25),
    }
}

/// How far along its axis the emitter is at step `i`.
pub open spec fn sweep_offset(sweep: Sweep, i: int) -> int {
    match sweep {
        Sweep::LeftToRight => tdiv((i - 500) * ONE, 50),
        Sweep::BottomToTop => tdiv((i - 500) * ONE, 50),
        Sweep::TopToBottom => tdiv(-(i - 500) * ONE, 50),
        Sweep::RightToLeft => tdiv(-(i - 500) * ONE, 50),
    }
}

/// The emitter at step `i`: sweeps across move it on the first axis, the others on the
/// third.
pub open spec fn emitter_at(sweep: Sweep, i: int) -> (int, int, int) {
    match sweep {
        Sweep::LeftToRight => (sweep_offset(sweep, i), 0, 0),
        Sweep::RightToLeft => (sweep_offset(sweep, i), 0, 0),
        Sweep::BottomToTop => (0, 0, sweep_offset(sweep, i)),
        Sweep::TopToBottom => (0, 0, sweep_offset(sweep, i)),
    }
}

/// The cue for a target that lies `x_diff` across and `z_diff` along from the listener;
/// none where it lies straight ahead or beside.
pub open spec fn cue_for(x_diff: int, z_diff: int) -> Option<Cue> {
    if x_diff == 0 || z_diff == 0 {
        None
    } else {
        Some(
            Cue {
                across: if x_diff > 0 {
                    Sweep::LeftToRight
                } else {
                    Sweep::RightToLeft
                },
                across_by: x_diff as i32,
                along: if x_diff > 0 && z_diff < 0 {
                    Sweep::BottomToTop
                } else {
                    Sweep::TopToBottom
                },
                along_by: z_diff as i32,
            },
        )
    }
}

impl Sweep {
    /// Computes `sweep_end`; every step before it may be handed to `emitter`.
    pub fn end(&self, disp: Scalar) -> (r: i32)
        ensures
            r == sweep_end(*self, disp as int),
            -STEP_LIMIT < r < STEP_LIMIT,
    {
        proof {
            crate::fixed::lemma_tdiv_scale_bound(disp as int, 0x8000);
        }
        let w: i32 = wide_div(disp as i128, ONE as i128) as i32;
        match self {
            Sweep::LeftToRight => w * 25,
            Sweep::BottomToTop => -(w * 25),
            Sweep::TopToBottom => w * 20,
            Sweep::RightToLeft => -(w * 25),
        }
    }

    /// Computes `emitter_at`.
    pub fn emitter(&self, i: i32) -> (r: [Scalar; 3])
        requires
            -STEP_LIMIT <= i <= STEP_LIMIT,
        ensures
            (r[0] as int, r[1] as int, r[2] as int) == emitter_at(*self, i as int),
    {
        proof {
            crate::fixed::lemma_tdiv_bound((i - 500) * ONE, 50);
            crate::fixed::lemma_tdiv_bound(-(i - 500) * ONE, 50);
        }
        let along: i128 = (i as i128 - 500) * 65536;
        match self {
            Sweep::LeftToRight => [wide_div(along, 50) as i32, 0, 0],
            Sweep::RightToLeft => [wide_div(-along, 50) as i32, 0, 0],
            Sweep::BottomToTop => [0, 0, wide_div(along, 50) as i32],
            Sweep::TopToBottom => [0, 0, wide_div(-along, 50) as i32],
        }
    }
}

/// Computes `cue_for`.
pub fn cue(x_diff: Scalar, z_diff: Scalar) -> (r: Option<Cue>)
    ensures
        r == cue_for(x_diff as int, z_diff as int),
{
    if x_diff == 0 || z_diff == 0 {
        None
    } else {
        Some(
            Cue {
                across: if x_diff > 0 {
                    Sweep::LeftToRight
                } else {
                    Sweep::RightToLeft
                },
                across_by: x_diff,
                along: if x_diff > 0 && z_diff < 0 {
                    Sweep::BottomToTop
                } else {
                    Sweep::TopToBottom
                },
                along_by: z_diff,
            },
        )
    }
}

} // verus!
