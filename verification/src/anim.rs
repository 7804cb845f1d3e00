//! The clock that cycles an animated figure through its animations, and the camera that
//! orbits it.

use vstd::prelude::*;
use crate::fixed::{fx_add, sat, Scalar, ONE};
use crate::game::{turn, turned, zoom, zoomed, QUARTER_PI};
use crate::vector::{Pos3, Vec3};

verus! {

/// How long one animation plays before the next begins.
pub const ANIM_LENGTH: Scalar = 262144;

/// Half a turn, in radians.
pub const PI: Scalar = 205887;

/// An animated figure: where it stands, how long its animation has played, and which
/// animation that is.
#[derive(Clone, Copy, PartialEq, Eq, Structural, Debug)]
pub struct Player {
    pub pos: Pos3,
    pub t: Scalar,
    pub anim: usize,
}

/// A camera that looks at the figure from a distance.
#[derive(Clone, Copy, PartialEq, Eq, Structural, Debug)]
pub struct OrbitCamera {
    pub pitch: Scalar,
    pub yaw: Scalar,
    pub distance: Scalar,
    pub player_pos: Pos3,
}

impl Player {
    /// The figure one tick later, with `n` animations to cycle through.
    pub open spec fn integrated(self, dt: int, n: int) -> Player {
        if sat(self.t + dt) > ANIM_LENGTH {
            Player { t: 0, anim: ((self.anim + 1) % n) as usize, ..self }
        } else {
            Player { t: sat(self.t + dt) as i32, ..self }
        }
    }

    /// Lets the animation play for one tick; one that has played for more than its
    /// length gives way to the next, and the last to the first.
    pub fn integrate(&mut self, dt: Scalar, n_anims: usize)
        requires
            sat(old(self).t + dt) > ANIM_LENGTH ==> n_anims > 0 && old(self).anim < usize::MAX,
        ensures
            *final(self) == old(self).integrated(dt as int, n_anims as int),
    {
        self.t = fx_add(self.t, dt);
        if self.t > ANIM_LENGTH {
            self.t = 0;
            self.anim = (self.anim + 1) % n_anims;
        }
    }
}

impl OrbitCamera {
    /// A level camera five units from the origin.
    pub fn new() -> (r: OrbitCamera)
        ensures
            r == (OrbitCamera {
                pitch: 0,
                yaw: 0,
                distance: 327680,
                player_pos: Vec3 { x: 0, y: 0, z: 0 },
            }),
    {
        OrbitCamera { pitch: 0, yaw: 0, distance: 5 * ONE, player_pos: Vec3::zero() }
    }

    /// The camera after the mouse has moved by `(dx, dy)` and the two keys have been read.
    pub open spec fn updated(self, dx: int, dy: int, nearer: bool, farther: bool, pos: Pos3)
        -> OrbitCamera {
        OrbitCamera {
            pitch: turned(self.pitch as int, dy, QUARTER_PI as int) as i32,
            yaw: turned(self.yaw as int, dx, PI as int) as i32,
            distance: zoomed(self.distance as int, nearer, farther) as i32,
            player_pos: pos,
        }
    }

    /// Follows the mouse and the figure: a hundredth of the mouse's way turns the camera,
    /// the pitch within an eighth of a turn and the yaw within half a turn, and each key
    /// moves it half a unit nearer or farther while it is held.
    pub fn update(&mut self, dx: Scalar, dy: Scalar, nearer: bool, farther: bool, pos: Pos3)
        ensures
            *final(self) == old(self).updated(dx as int, dy as int, nearer, farther, pos),
    {
        self.pitch = turn(self.pitch, dy, QUARTER_PI);
        self.yaw = turn(self.yaw, dx, PI);
        self.distance = zoom(self.distance, nearer, farther);
        self.player_pos = pos;
    }
}

} // verus!
