//! The bodies of the marble game and the steps that advance them by one tick.
//!
//! A tick applies gravity to the momentum first and moves the position afterwards, by the
//! momentum it has just changed.

use vstd::prelude::*;
use crate::fixed::{
    fx_add, fx_clamp, fx_mul, fx_mul_spec, fx_neg, fx_sub, max, min, sat, tdiv, wide_div, Scalar,
    ONE,
};
use crate::geom::{in_range, Config, Plane, Sphere, AABB};
use crate::save_load::{start_of, start_position, SaveFile};
use crate::vector::{
    len_wide, qadd, qmul, qnormalize, qscale, vadd, vnormalize, vnormalize_to, vscale, Quat, Vec3,
};

verus! {

/// One half.
pub const HALF: Scalar = 32768;

/// An eighth of a turn, in radians.
pub const QUARTER_PI: Scalar = 51472;

/// The rate at which a held key tilts the wall, per unit of time.
pub const TILT_RATE: Scalar = 26214;

/// The radius of the player.
pub const PLAYER_RADIUS: Scalar = 19661;

/// The sphere that the player steers.
#[derive(Clone, Copy, PartialEq, Eq, Structural, Debug)]
pub struct Player {
    pub body: Sphere,
    pub velocity: Vec3,
    pub acc: Vec3,
    pub rot: Quat,
    pub omega: Vec3,
}

/// Free spheres, each with its velocity.
#[derive(Clone, Debug)]
pub struct Marbles {
    pub body: Vec<Sphere>,
    pub velocity: Vec<Vec3>,
}

/// The floor, and the keys that tilt it: each control is -1, 0 or 1.
#[derive(Clone, Copy, PartialEq, Eq, Debug)]
pub struct Wall {
    pub body: Plane,
    pub control: (i8, i8),
}

/// A box that moves at a fixed velocity.
#[derive(Clone, Copy, PartialEq, Eq, Structural, Debug)]
pub struct Cube {
    pub body: AABB,
    pub velocity: Vec3,
}

/// What gravity adds to a momentum in one tick.
pub open spec fn gravity_impulse(cfg: Config) -> Vec3 {
    Vec3 { x: 0, y: (-fx_mul_spec(cfg.gravity as int, cfg.dt as int)) as i32, z: 0 }
}

/// The velocity `v` held to the speed limit.
pub open spec fn speed_limited(v: Vec3, limit: int) -> Vec3 {
    if len_wide(v) > limit {
        vnormalize_to(v, limit)
    } else {
        v
    }
}

/// The orientation `rot` after one tick at the angular velocity `omega`: half the tick
/// times the pure quaternion of `omega`, times `rot`, is added to `rot`, and the sum is
/// brought back to unit norm.
pub open spec fn spun(rot: Quat, omega: Vec3, dt: int) -> Quat {
    let rate = qscale(Quat { s: 0, v: omega }, fx_mul_spec(HALF as int, dt));
    qnormalize(qadd(rot, qmul(rate, rot)))
}

/// The player one tick later.
pub open spec fn player_integrated(p: Player, cfg: Config) -> Player {
    let lin_mom = vadd(p.body.lin_mom, gravity_impulse(cfg));
    let velocity = speed_limited(lin_mom, cfg.max_speed as int);
    Player {
        body: Sphere { c: vadd(p.body.c, vscale(velocity, cfg.dt as int)), lin_mom, ..p.body },
        velocity,
        acc: p.acc,
        rot: spun(p.rot, p.body.ang_mom, cfg.dt as int),
        omega: p.body.ang_mom,
    }
}

/// Computes `gravity_impulse`.
pub fn gravity_step(cfg: &Config) -> (r: Vec3)
    ensures
        r == gravity_impulse(*cfg),
{
    Vec3 { x: 0, y: fx_neg(fx_mul(cfg.gravity, cfg.dt)), z: 0 }
}

/// Computes `speed_limited`.
pub fn limit_speed(v: &Vec3, limit: Scalar) -> (r: Vec3)
    ensures
        r == speed_limited(*v, limit as int),
{
    if v.length_wide() > limit as i128 {
        v.normalize_to(limit)
    } else {
        *v
    }
}

/// Computes `spun`.
pub fn spin(rot: &Quat, omega: &Vec3, dt: Scalar) -> (r: Quat)
    ensures
        r == spun(*rot, *omega, dt as int),
{
    let rate: Quat = Quat { s: 0, v: *omega }.scaled(fx_mul(HALF, dt));
    rot.plus(&rate.times(rot)).normalize()
}

impl Player {
    /// A player at rest at `c`, upright, with unit mass.
    pub fn at(c: Vec3) -> (p: Player)
        ensures
            p == (Player {
                body: Sphere {
                    c,
                    r: PLAYER_RADIUS,
                    lin_mom: Vec3 { x: 0, y: 0, z: 0 },
                    ang_mom: Vec3 { x: 0, y: 0, z: 0 },
                    mass: ONE,
                },
                velocity: Vec3 { x: 0, y: 0, z: 0 },
                acc: Vec3 { x: 0, y: 0, z: 0 },
                rot: Quat { s: ONE, v: Vec3 { x: 0, y: 0, z: 0 } },
                omega: Vec3 { x: 0, y: 0, z: 0 },
            }),
    {
        Player {
            body: Sphere::new(c, PLAYER_RADIUS, ONE),
            velocity: Vec3::zero(),
            acc: Vec3::zero(),
            rot: Quat::identity(),
            omega: Vec3::zero(),
        }
    }

    /// The player of a new game: at rest where the save left it, or at the default
    /// start where there is no save.
    pub fn new(save: &Option<SaveFile>) -> (p: Player)
        ensures
            p.body.c == start_of(*save),
            p.body.r == PLAYER_RADIUS,
            p.body.mass == ONE,
            p.body.lin_mom == (Vec3 { x: 0, y: 0, z: 0 }),
            p.body.ang_mom == (Vec3 { x: 0, y: 0, z: 0 }),
            p.velocity == (Vec3 { x: 0, y: 0, z: 0 }),
            p.acc == (Vec3 { x: 0, y: 0, z: 0 }),
            p.omega == (Vec3 { x: 0, y: 0, z: 0 }),
            p.rot == (Quat { s: ONE, v: Vec3 { x: 0, y: 0, z: 0 } }),
    {
        Player::at(start_position(save))
    }

    /// Adds `l` to the linear and `a` to the angular momentum.
    pub fn apply_impulse(&mut self, l: Vec3, a: Vec3)
        ensures
            *final(self) == (Player {
                body: Sphere {
                    lin_mom: vadd(old(self).body.lin_mom, l),
                    ang_mom: vadd(old(self).body.ang_mom, a),
                    ..old(self).body
                },
                ..*old(self)
            }),
    {
        self.body.lin_mom = self.body.lin_mom.plus(&l);
        self.body.ang_mom = self.body.ang_mom.plus(&a);
    }

    /// Advances the player by one tick: gravity, the speed limit, the position, then the
    /// orientation.
    pub fn integrate(&mut self, cfg: &Config)
        ensures
            *final(self) == player_integrated(*old(self), *cfg),
    {
        self.body.lin_mom = self.body.lin_mom.plus(&gravity_step(cfg));
        self.velocity = limit_speed(&self.body.lin_mom, cfg.max_speed);
        self.body.c = self.body.c.plus(&self.velocity.scaled(cfg.dt));
        self.omega = self.body.ang_mom;
        self.rot = spin(&self.rot, &self.omega, cfg.dt);
    }
}

/// One tick takes exactly `gravity * dt` from the vertical momentum of the player and
/// leaves the rest of the momentum alone; a player at rest ends with just that. This
/// holds where the new momentum is not clamped.
pub proof fn lemma_gravity_tick(p: Player, cfg: Config)
    requires
        in_range(p.body.lin_mom.y - fx_mul_spec(cfg.gravity as int, cfg.dt as int)),
        in_range(p.body.lin_mom.x as int),
        in_range(p.body.lin_mom.z as int),
    ensures
        player_integrated(p, cfg).body.lin_mom.y == p.body.lin_mom.y - fx_mul_spec(
            cfg.gravity as int,
            cfg.dt as int,
        ),
        player_integrated(p, cfg).body.lin_mom.x == p.body.lin_mom.x,
        player_integrated(p, cfg).body.lin_mom.z == p.body.lin_mom.z,
{
}

/// A marble and its velocity one tick later.
pub open spec fn marble_integrated(s: Sphere, v: Vec3, cfg: Config) -> (Sphere, Vec3) {
    let velocity = vadd(v, gravity_impulse(cfg));
    (Sphere { c: vadd(s.c, vscale(velocity, cfg.dt as int)), ..s }, velocity)
}

impl Marbles {
    /// Whether each marble has its velocity.
    pub open spec fn wf(&self) -> bool {
        self.body@.len() == self.velocity@.len()
    }

    /// Advances every marble by one tick: gravity changes each velocity, and each marble
    /// that has a velocity is moved by its new one.
    pub fn integrate(&mut self, cfg: &Config)
        ensures
            final(self).body@.len() == old(self).body@.len(),
            final(self).velocity@.len() == old(self).velocity@.len(),
            forall|i: int|
                0 <= i < old(self).velocity@.len() ==> (#[trigger] final(self).velocity@[i])
                    == vadd(old(self).velocity@[i], gravity_impulse(*cfg)),
            forall|i: int|
                0 <= i < old(self).body@.len() ==> (#[trigger] final(self).body@[i]) == if i
                    < old(self).velocity@.len() {
                    marble_integrated(old(self).body@[i], old(self).velocity@[i], *cfg).0
                } else {
                    old(self).body@[i]
                },
    {
        let g: Vec3 = gravity_step(cfg);
        let n: usize = self.velocity.len();
        let mut i: usize = 0;
        while i < n
            invariant
                i <= n,
                n == self.velocity@.len(),
                n == old(self).velocity@.len(),
                self.body@ == old(self).body@,
                g == gravity_impulse(*cfg),
                forall|k: int|
                    0 <= k < i ==> (#[trigger] self.velocity@[k]) == vadd(
                        old(self).velocity@[k],
                        g,
                    ),
                forall|k: int|
                    i <= k < n ==> (#[trigger] self.velocity@[k]) == old(self).velocity@[k],
            decreases n - i,
        {
            let v: Vec3 = self.velocity[i].plus(&g);
            self.velocity[i] = v;
            i += 1;
        }
        let m: usize = if self.body.len() < n {
            self.body.len()
        } else {
            n
        };
        let mut j: usize = 0;
        while j < m
            invariant
                j <= m,
                m <= n,
                m <= self.body@.len(),
                n == self.velocity@.len(),
                n == old(self).velocity@.len(),
                self.body@.len() == old(self).body@.len(),
                forall|k: int|
                    0 <= k < n ==> (#[trigger] self.velocity@[k]) == vadd(
                        old(self).velocity@[k],
                        gravity_impulse(*cfg),
                    ),
                forall|k: int|
                    0 <= k < j ==> (#[trigger] self.body@[k]) == marble_integrated(
                        old(self).body@[k],
                        old(self).velocity@[k],
                        *cfg,
                    ).0,
                forall|k: int|
                    j <= k < self.body@.len() ==> (#[trigger] self.body@[k]) == old(self).body@[k],
            decreases m - j,
        {
            let c: Vec3 = self.body[j].c.plus(&self.velocity[j].scaled(cfg.dt));
            self.body[j].c = c;
            j += 1;
        }
    }
}

/// The control that a pair of opposed keys gives: -1 for the first, 1 for the second,
/// the first winning.
pub open spec fn axis_control(minus: bool, plus: bool) -> i8 {
    if minus {
        -1i8
    } else if plus {
        1i8
    } else {
        0i8
    }
}

/// What one tick of a held control adds to a component of the wall's normal.
pub open spec fn tilt(control: int, cfg: Config) -> int {
    fx_mul_spec(control * TILT_RATE, cfg.dt as int)
}

/// The wall one tick later: the controls lean its normal, which is then brought back to
/// unit length.
pub open spec fn wall_integrated(w: Wall, cfg: Config) -> Wall {
    Wall {
        body: Plane {
            n: vnormalize(
                vadd(
                    w.body.n,
                    Vec3 {
                        x: tilt(w.control.0 as int, cfg) as i32,
                        y: 0,
                        z: tilt(w.control.1 as int, cfg) as i32,
                    },
                ),
            ),
            d: w.body.d,
        },
        control: w.control,
    }
}

impl Wall {
    /// Reads the four keys that tilt the wall.
    pub fn input(&mut self, a_held: bool, d_held: bool, w_held: bool, s_held: bool)
        ensures
            final(self).body == old(self).body,
            final(self).control == (axis_control(a_held, d_held), axis_control(w_held, s_held)),
    {
        self.control.0 = if a_held {
            -1
        } else if d_held {
            1
        } else {
            0
        };
        self.control.1 = if w_held {
            -1
        } else if s_held {
            1
        } else {
            0
        };
    }

    pub fn integrate(&mut self, cfg: &Config)
        ensures
            *final(self) == wall_integrated(*old(self), *cfg),
    {
        let dx: Scalar = fx_mul(crate::fixed::fx_clamp(self.control.0 as i128 * 26214), cfg.dt);
        let dz: Scalar = fx_mul(crate::fixed::fx_clamp(self.control.1 as i128 * 26214), cfg.dt);
        self.body.n = self.body.n.plus(&Vec3 { x: dx, y: 0, z: dz }).normalize();
    }
}

impl Cube {
    /// Moves the cube by one tick of its velocity.
    pub fn integrate(&mut self, cfg: &Config)
        ensures
            *final(self) == (Cube {
                body: AABB {
                    c: vadd(old(self).body.c, vscale(old(self).velocity, cfg.dt as int)),
                    ..old(self).body
                },
                ..*old(self)
            }),
    {
        self.body.c = self.body.c.plus(&self.velocity.scaled(cfg.dt));
    }
}

/// What a camera shows: it stands at `eye` and looks at `target`.
#[derive(Clone, Copy, PartialEq, Eq, Structural, Debug)]
pub struct Aim {
    pub eye: Vec3,
    pub target: Vec3,
}

/// An angle turned by a hundredth of the mouse's way `delta` and held within `limit` to
/// either side.
pub open spec fn turned(angle: int, delta: int, limit: int) -> int {
    max(-limit, min(sat(angle + tdiv(delta, 100)), limit))
}

/// Computes `turned`.
pub fn turn(angle: Scalar, delta: Scalar, limit: Scalar) -> (r: Scalar)
    requires
        0 <= limit,
    ensures
        r == turned(angle as int, delta as int, limit as int),
{
    let a: Scalar = fx_clamp(angle as i128 + wide_div(delta as i128, 100));
    let inner: Scalar = if a <= limit {
        a
    } else {
        limit
    };
    if -limit >= inner {
        -limit
    } else {
        inner
    }
}

/// A distance after the keys that bring the camera nearer and farther have been read.
pub open spec fn zoomed(distance: int, nearer: bool, farther: bool) -> int {
    let d = if nearer {
        sat(distance - HALF)
    } else {
        distance
    };
    if farther {
        sat(d + HALF)
    } else {
        d
    }
}

/// Computes `zoomed`.
pub fn zoom(distance: Scalar, nearer: bool, farther: bool) -> (r: Scalar)
    ensures
        r == zoomed(distance as int, nearer, farther),
{
    let d: Scalar = if nearer {
        fx_sub(distance, HALF)
    } else {
        distance
    };
    if farther {
        fx_add(d, HALF)
    } else {
        d
    }
}

/// A camera at the eyes of the player.
#[derive(Clone, Copy, PartialEq, Eq, Structural, Debug)]
pub struct FPCamera {
    pub pitch: Scalar,
    pub player_pos: Vec3,
    pub player_rot: Quat,
}

/// A camera that follows the player from a distance.
#[derive(Clone, Copy, PartialEq, Eq, Structural, Debug)]
pub struct OrbitCamera {
    pub pitch: Scalar,
    pub yaw: Scalar,
    pub distance: Scalar,
    pub player_pos: Vec3,
    pub player_rot: Quat,
}

/// A camera that looks down on the player.
#[derive(Clone, Copy, PartialEq, Eq, Structural, Debug)]
pub struct TopDownCamera {
    pub distance: Scalar,
    pub player_pos: Vec3,
}

impl FPCamera {
    pub fn new() -> (r: FPCamera)
        ensures
            r == (FPCamera {
                pitch: 0,
                player_pos: Vec3 { x: 0, y: 0, z: 0 },
                player_rot: Quat { s: ONE, v: Vec3 { x: 0, y: 0, z: 0 } },
            }),
    {
        FPCamera { pitch: 0, player_pos: Vec3::zero(), player_rot: Quat::identity() }
    }

    /// Follows the mouse and the player: the pitch stays within an eighth of a turn.
    pub fn update(&mut self, dy: Scalar, player: &Player)
        ensures
            *final(self) == (FPCamera {
                pitch: turned(old(self).pitch as int, dy as int, QUARTER_PI as int) as i32,
                player_pos: player.body.c,
                player_rot: player.rot,
            }),
    {
        self.pitch = turn(self.pitch, dy, QUARTER_PI);
        self.player_pos = player.body.c;
        self.player_rot = player.rot;
    }

    /// Where the camera stands: half a unit above the centre of the player.
    pub fn eye(&self) -> (r: Vec3)
        ensures
            r == vadd(self.player_pos, Vec3 { x: 0, y: HALF, z: 0 }),
    {
        self.player_pos.plus(&Vec3 { x: 0, y: HALF, z: 0 })
    }
}

impl OrbitCamera {
    /// A level camera five units from the origin.
    pub fn new() -> (r: OrbitCamera)
        ensures
            r == (OrbitCamera {
                pitch: 0,
                yaw: 0,
                distance: 327680,
                player_pos: Vec3 { x: 0, y: 0, z: 0 },
                player_rot: Quat { s: ONE, v: Vec3 { x: 0, y: 0, z: 0 } },
            }),
    {
        OrbitCamera {
            pitch: 0,
            yaw: 0,
            distance: 5 * ONE,
            player_pos: Vec3::zero(),
            player_rot: Quat::identity(),
        }
    }

    /// The camera after the mouse has moved by `(dx, dy)` and the two keys have been read.
    pub open spec fn updated(
        self,
        dx: int,
        dy: int,
        nearer: bool,
        farther: bool,
        player: Player,
    ) -> OrbitCamera {
        OrbitCamera {
            pitch: turned(self.pitch as int, dy, QUARTER_PI as int) as i32,
            yaw: turned(self.yaw as int, dx, QUARTER_PI as int) as i32,
            distance: zoomed(self.distance as int, nearer, farther) as i32,
            player_pos: player.body.c,
            player_rot: player.rot,
        }
    }

    /// Follows the mouse and the player: pitch and yaw stay within an eighth of a turn,
    /// and each key moves the camera half a unit nearer or farther.
    pub fn update(
        &mut self,
        dx: Scalar,
        dy: Scalar,
        nearer: bool,
        farther: bool,
        player: &Player,
    )
        ensures
            *final(self) == old(self).updated(dx as int, dy as int, nearer, farther, *player),
    {
        self.pitch = turn(self.pitch, dy, QUARTER_PI);
        self.yaw = turn(self.yaw, dx, QUARTER_PI);
        self.distance = zoom(self.distance, nearer, farther);
        self.player_pos = player.body.c;
        self.player_rot = player.rot;
    }

    /// Points the view at the player and leaves the eye where it is.
    pub fn update_camera(&self, c: &mut Aim)
        ensures
            *final(c) == (Aim { eye: old(c).eye, target: self.player_pos }),
    {
        c.target = self.player_pos;
    }
}

impl TopDownCamera {
    /// A camera fifteen units above the origin.
    pub fn new() -> (r: TopDownCamera)
        ensures
            r == (TopDownCamera { distance: 983040, player_pos: Vec3 { x: 0, y: 0, z: 0 } }),
    {
        TopDownCamera { distance: 15 * ONE, player_pos: Vec3::zero() }
    }

    /// The camera after the two keys have been read.
    pub open spec fn updated(self, nearer: bool, farther: bool, player: Player) -> TopDownCamera {
        TopDownCamera {
            distance: zoomed(self.distance as int, nearer, farther) as i32,
            player_pos: player.body.c,
        }
    }

    /// Follows the player; each key moves the camera half a unit nearer or farther.
    pub fn update(&mut self, nearer: bool, farther: bool, player: &Player)
        ensures
            *final(self) == old(self).updated(nearer, farther, *player),
    {
        self.distance = zoom(self.distance, nearer, farther);
        self.player_pos = player.body.c;
    }

    /// What the camera shows: the player, from straight above and a hair behind.
    pub open spec fn view(self) -> Aim {
        Aim {
            eye: vadd(self.player_pos, Vec3 { x: 0, y: self.distance, z: 66 }),
            target: self.player_pos,
        }
    }

    /// Points the view at the player from above.
    pub fn update_camera(&self, c: &mut Aim)
        ensures
            *final(c) == self.view(),
    {
        c.target = self.player_pos;
        c.eye = self.player_pos.plus(&Vec3 { x: 0, y: self.distance, z: 66 });
    }
}

} // verus!
