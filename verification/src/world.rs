//! The state of the marble game and its tick.
//!
//! A tick reads the input, advances every body, puts marbles that strayed back into
//! play, resolves the contacts and says what is to be saved, shown and played.

use rand::Rng;
use vstd::prelude::*;
use crate::collision::{
    contacts_aa, contacts_ab, gather_contacts_aa, gather_contacts_ab, masses_usable,
    momentum_impulse, restitute_dyn_dyn, restitute_dyn_stat, restitute_dyns, restituted_dyn_dyn,
    restituted_dyns, restituted_stat, settled_pair, Contact,
};
use crate::fixed::{fx_add, fx_mul_spec, fx_sub, sat, Scalar, ONE};
use crate::game::{
    marble_integrated, player_integrated, Aim, Cube, Marbles, OrbitCamera, Player, TopDownCamera,
    Wall, PLAYER_RADIUS,
};
use crate::geom::{in_range, Collide, Config, Plane, Sphere, AABB};
use crate::sound::{cue, cue_for, Cue};
use crate::vector::{
    dot_wide, vadd, vmagnitude2, vnormalize_to, vscale, Pos3, Quat, Vec3,
};

verus! {

/// The size of a nudge that a held key gives the player.
pub const NUDGE: Scalar = 6554;

/// The largest squared momentum that steering leaves the player, and the length to which
/// a larger momentum is cut.
pub const STEER_LIMIT: Scalar = 85197;

/// The share of its velocity that a marble keeps for each of its contacts with the wall.
pub const MARBLE_GRIP: Scalar = 65208;

/// The share of its momentum that the player keeps for each of its contacts with the wall.
pub const PLAYER_GRIP: Scalar = 64225;

/// How far from the origin a marble may stray.
pub const STRAY_DISTANCE: i128 = 2621440;

/// The keys and the mouse, as one tick sees them.
#[derive(Clone, Copy, PartialEq, Eq, Structural, Debug)]
pub struct Input {
    /// Held keys.
    pub w: bool,
    pub a: bool,
    pub s: bool,
    pub d: bool,
    pub q: bool,
    pub e: bool,
    /// Keys pressed during this tick.
    pub c: bool,
    pub x: bool,
    pub h: bool,
    pub up: bool,
    pub down: bool,
    /// The way the mouse has moved.
    pub mouse_dx: Scalar,
    pub mouse_dy: Scalar,
}

/// What a tick asks of the world outside: a position to save and a cue to play.
#[derive(Clone, Copy, PartialEq, Eq, Structural, Debug)]
pub struct Effects {
    pub save: Option<Pos3>,
    pub cue: Option<Cue>,
}

/// The marble game.
pub struct Game {
    pub marbles: Marbles,
    pub cubes: Vec<Cube>,
    pub wall: Wall,
    pub player: Player,
    pub td_player: Player,
    pub camera: OrbitCamera,
    pub alt_camera: TopDownCamera,
    pub use_alt_cam: bool,
}

/// The state of a game as a value.
pub struct World {
    pub marbles: Seq<Sphere>,
    pub velocities: Seq<Vec3>,
    pub cubes: Seq<Cube>,
    pub wall: Wall,
    pub player: Player,
    pub td_player: Player,
    pub camera: OrbitCamera,
    pub alt_camera: TopDownCamera,
    pub use_alt_cam: bool,
}

impl View for Game {
    type V = World;

    open spec fn view(&self) -> World {
        World {
            marbles: self.marbles.body@,
            velocities: self.marbles.velocity@,
            cubes: self.cubes@,
            wall: self.wall,
            player: self.player,
            td_player: self.td_player,
            camera: self.camera,
            alt_camera: self.alt_camera,
            use_alt_cam: self.use_alt_cam,
        }
    }
}

impl World {
    /// Each marble has its velocity, and the two cubes that a tick reads are there.
    pub open spec fn wf(self) -> bool {
        self.marbles.len() == self.velocities.len() && self.cubes.len() >= 2
    }
}

/// The velocity at which a triggered cube sinks.
pub open spec fn sinking() -> Vec3 {
    Vec3 { x: 0, y: (-ONE) as i32, z: 0 }
}

/// The world once the player has been tested against the first cube: while the two touch,
/// the first two cubes sink.
pub open spec fn triggered(w: World) -> World {
    if w.player.body.touching_spec(&w.cubes[0].body) {
        World {
            cubes: w.cubes.update(0, Cube { velocity: sinking(), ..w.cubes[0] }).update(
                1,
                Cube { velocity: sinking(), ..w.cubes[1] },
            ),
            ..w
        }
    } else {
        w
    }
}

/// A momentum cut to the steering limit where its square exceeds it.
pub open spec fn steer_limited(m: Vec3) -> Vec3 {
    if vmagnitude2(m) > STEER_LIMIT {
        vnormalize_to(m, STEER_LIMIT as int)
    } else {
        m
    }
}

/// A body with `l` added to its linear and `a` to its angular momentum.
pub open spec fn nudged(s: Sphere, l: Vec3, a: Vec3) -> Sphere {
    Sphere { lin_mom: vadd(s.lin_mom, l), ang_mom: vadd(s.ang_mom, a), ..s }
}

/// The body after the keys that move the player forward and back have been read.
pub open spec fn nudged_along(s: Sphere, input: Input) -> Sphere {
    if input.w {
        nudged(s, Vec3 { x: 0, y: 0, z: NUDGE }, Vec3 { x: NUDGE, y: 0, z: 0 })
    } else if input.s {
        nudged(
            s,
            Vec3 { x: 0, y: 0, z: (-NUDGE) as i32 },
            Vec3 { x: (-NUDGE) as i32, y: 0, z: 0 },
        )
    } else {
        s
    }
}

/// The body after the keys that move the player left and right have been read.
pub open spec fn nudged_across(s: Sphere, input: Input) -> Sphere {
    if input.a {
        nudged(s, Vec3 { x: NUDGE, y: 0, z: 0 }, Vec3 { x: 0, y: 0, z: (-NUDGE) as i32 })
    } else if input.d {
        nudged(s, Vec3 { x: (-NUDGE) as i32, y: 0, z: 0 }, Vec3 { x: 0, y: 0, z: NUDGE })
    } else {
        s
    }
}

/// The angular velocity that the turning keys ask for.
pub open spec fn turning(input: Input) -> Vec3 {
    if input.q {
        Vec3 { x: 0, y: ONE, z: 0 }
    } else if input.e {
        Vec3 { x: 0, y: (-ONE) as i32, z: 0 }
    } else {
        Vec3 { x: 0, y: 0, z: 0 }
    }
}

/// The player after the held keys have been read: each pair of keys adds the nudge of
/// the key that is held to the linear and the angular momentum, both momenta are cut to
/// the steering limit, and the turning keys set the angular velocity.
pub open spec fn player_steered(p: Player, input: Input) -> Player {
    let pushed = nudged_across(nudged_along(p.body, input), input);
    Player {
        body: Sphere {
            lin_mom: steer_limited(pushed.lin_mom),
            ang_mom: steer_limited(pushed.ang_mom),
            ..pushed
        },
        acc: Vec3 { x: 0, y: 0, z: 0 },
        omega: turning(input),
        ..p
    }
}

/// A coordinate moved back by a nudge while the first key is held, forward while only
/// the second is.
pub open spec fn stepped(x: int, back: bool, forward: bool) -> int {
    if back {
        sat(x - NUDGE)
    } else if forward {
        sat(x + NUDGE)
    } else {
        x
    }
}

/// The stand-in that the top-down camera follows, moved by the held keys.
pub open spec fn stand_in_moved(p: Player, input: Input) -> Player {
    Player {
        body: Sphere {
            c: Vec3 {
                x: stepped(p.body.c.x as int, input.a, input.d) as i32,
                y: p.body.c.y,
                z: stepped(p.body.c.z as int, input.w, input.s) as i32,
            },
            ..p.body
        },
        ..p
    }
}

/// The world after the held keys have been read: under the top-down camera they move
/// its stand-in, otherwise they steer the player. The key that changes the camera then
/// does so and puts the stand-in where the player is.
pub open spec fn steered(w: World, input: Input) -> World {
    let cleared = Player { acc: Vec3 { x: 0, y: 0, z: 0 }, ..w.player };
    let moved = if w.use_alt_cam {
        World { player: cleared, td_player: stand_in_moved(w.td_player, input), ..w }
    } else {
        World { player: player_steered(w.player, input), ..w }
    };
    if input.c {
        World { use_alt_cam: !moved.use_alt_cam, td_player: moved.player, ..moved }
    } else {
        moved
    }
}

/// The cubes one tick later.
pub open spec fn cubes_integrated(cubes: Seq<Cube>, cfg: Config) -> Seq<Cube> {
    Seq::new(
        cubes.len(),
        |i: int|
            Cube {
                body: AABB {
                    c: vadd(cubes[i].body.c, vscale(cubes[i].velocity, cfg.dt as int)),
                    ..cubes[i].body
                },
                ..cubes[i]
            },
    )
}

/// The world after the camera in use has followed its player and every body has been
/// advanced by one tick, the player like every other body exactly once.
pub open spec fn advanced(w: World, input: Input, cfg: Config) -> World {
    let watched = if w.use_alt_cam {
        World { alt_camera: w.alt_camera.updated(input.up, input.down, w.td_player), ..w }
    } else {
        World {
            camera: w.camera.updated(
                input.mouse_dx as int,
                input.mouse_dy as int,
                input.up,
                input.down,
                w.player,
            ),
            ..w
        }
    };
    World {
        player: player_integrated(w.player, cfg),
        marbles: Seq::new(
            w.marbles.len(),
            |i: int| marble_integrated(w.marbles[i], w.velocities[i], cfg).0,
        ),
        velocities: Seq::new(
            w.velocities.len(),
            |i: int| marble_integrated(w.marbles[i], w.velocities[i], cfg).1,
        ),
        cubes: cubes_integrated(w.cubes, cfg),
        ..watched
    }
}

/// Whether a marble has strayed too far from the origin.
pub open spec fn strayed(s: Sphere) -> bool {
    dot_wide(s.c, s.c) >= STRAY_DISTANCE * STRAY_DISTANCE
}

/// Whether `p` lies where marbles are put into play: within five units of the vertical
/// axis on either side, and from one to five units up.
pub open spec fn in_spawn_box(p: Pos3) -> bool {
    &&& -5 * ONE <= p.x < 5 * ONE
    &&& ONE <= p.y < 5 * ONE
    &&& -5 * ONE <= p.z < 5 * ONE
}

/// Whether `after` is `before` with each strayed marble put back into play at rest,
/// somewhere in the spawn box, and everything else as it was.
pub open spec fn respawned(before: World, after: World) -> bool {
    &&& after.marbles.len() == before.marbles.len()
    &&& after.velocities.len() == before.velocities.len()
    &&& forall|i: int|
        0 <= i < before.marbles.len() ==> if strayed(#[trigger] before.marbles[i]) {
            &&& in_spawn_box(after.marbles[i].c)
            &&& after.marbles[i] == (Sphere { c: after.marbles[i].c, ..before.marbles[i] })
            &&& after.velocities[i] == (Vec3 { x: 0, y: 0, z: 0 })
        } else {
            &&& after.marbles[i] == before.marbles[i]
            &&& after.velocities[i] == before.velocities[i]
        }
    &&& after.cubes == before.cubes
    &&& after.wall == before.wall
    &&& after.player == before.player
    &&& after.td_player == before.td_player
    &&& after.camera == before.camera
    &&& after.alt_camera == before.alt_camera
    &&& after.use_alt_cam == before.use_alt_cam
}

/// The velocities after each of the first `k` contacts has cost the marble it names a
/// share of its velocity.
pub open spec fn rubbed(vels: Seq<Vec3>, contacts: Seq<Contact<usize>>, k: int) -> Seq<Vec3>
    decreases k,
{
    if k <= 0 {
        vels
    } else {
        let prev = rubbed(vels, contacts, k - 1);
        let a = contacts[k - 1].a as int;
        prev.update(a, vscale(prev[a], MARBLE_GRIP as int))
    }
}

/// The body after each of `k` contacts has cost it a share of both its momenta.
pub open spec fn slowed(s: Sphere, k: int) -> Sphere
    decreases k,
{
    if k <= 0 {
        s
    } else {
        let prev = slowed(s, k - 1);
        Sphere {
            lin_mom: vscale(prev.lin_mom, PLAYER_GRIP as int),
            ang_mom: vscale(prev.ang_mom, PLAYER_GRIP as int),
            ..prev
        }
    }
}

/// The world after its contacts have been gathered and resolved. All contacts are
/// gathered first: the player with the marbles, the wall and the second cube, the marbles
/// with the wall and with each other. They are resolved in this order: player and wall,
/// marbles and wall, player and cube, marbles among themselves, player and marbles. Then
/// each contact with the wall costs the body that made it a share of its motion.
pub open spec fn collided(w: World, cfg: Config) -> World {
    let pb = seq![w.player.body];
    let pv = seq![w.player.velocity];
    let walls = seq![w.wall.body];
    let boxes = seq![w.cubes[1].body];
    let pm = contacts_ab(pb, w.marbles, 1);
    let pw = contacts_ab(pb, walls, 1);
    let px = contacts_ab(pb, boxes, 1);
    let mw = contacts_ab(w.marbles, walls, w.marbles.len() as int);
    let mm = contacts_aa(w.marbles, w.marbles.len() as int);
    let s1 = restituted_stat(pb, pv, walls, pw, cfg);
    let s2 = restituted_stat(w.marbles, w.velocities, walls, mw, cfg);
    let s3 = restituted_stat(s1.0, s1.1, boxes, px, cfg);
    let s4 = restituted_dyns(s2.0, s2.1, mm, cfg);
    let s5 = restituted_dyn_dyn(s3.0, s3.1, s4.0, s4.1, pm, cfg);
    World {
        player: Player {
            body: slowed(s5.0[0], pw.len() as int),
            velocity: s5.1[0],
            ..w.player
        },
        marbles: s5.2,
        velocities: rubbed(s5.3, mw, mw.len() as int),
        ..w
    }
}

/// Whether the player of `w` overlaps nothing that a tick tests it against: no marble,
/// not the wall, not the second cube.
pub open spec fn player_is_free(w: World) -> bool {
    &&& contacts_ab(seq![w.player.body], w.marbles, 1).len() == 0
    &&& contacts_ab(seq![w.player.body], seq![w.wall.body], 1).len() == 0
    &&& contacts_ab(seq![w.player.body], seq![w.cubes[1].body], 1).len() == 0
}

/// A player that overlaps nothing leaves the contacts of a tick as it entered them.
pub proof fn lemma_free_player_passes(w: World, cfg: Config)
    requires
        player_is_free(w),
    ensures
        collided(w, cfg).player == w.player,
{
    let pb = seq![w.player.body];
    let pv = seq![w.player.velocity];
    let walls = seq![w.wall.body];
    let boxes = seq![w.cubes[1].body];
    let pm = contacts_ab(pb, w.marbles, 1);
    let pw = contacts_ab(pb, walls, 1);
    let px = contacts_ab(pb, boxes, 1);
    let mw = contacts_ab(w.marbles, walls, w.marbles.len() as int);
    let mm = contacts_aa(w.marbles, w.marbles.len() as int);
    let s1 = restituted_stat(pb, pv, walls, pw, cfg);
    let s2 = restituted_stat(w.marbles, w.velocities, walls, mw, cfg);
    let s3 = restituted_stat(s1.0, s1.1, boxes, px, cfg);
    let s4 = restituted_dyns(s2.0, s2.1, mm, cfg);
    let s5 = restituted_dyn_dyn(s3.0, s3.1, s4.0, s4.1, pm, cfg);
    assert(s1 == (pb, pv));
    assert(s3 == (pb, pv));
    assert(s5.0 == pb && s5.1 == pv);
    assert(slowed(pb[0], 0) == pb[0]);
}

/// Where the only contact of a tick is one between the player and a marble, resolving
/// the contacts leaves the sum of the linear momenta of the two as it was: what the one
/// loses the other gains. This holds where neither new momentum is clamped.
pub proof fn lemma_tick_contact_conserves_momentum(w: World, cfg: Config)
    requires
        w.marbles.len() == w.velocities.len(),
        w.marbles.len() <= usize::MAX,
        contacts_ab(seq![w.player.body], w.marbles, 1).len() == 1,
        contacts_ab(seq![w.player.body], seq![w.wall.body], 1).len() == 0,
        contacts_ab(seq![w.player.body], seq![w.cubes[1].body], 1).len() == 0,
        contacts_ab(w.marbles, seq![w.wall.body], w.marbles.len() as int).len() == 0,
        contacts_aa(w.marbles, w.marbles.len() as int).len() == 0,
        ({
            let j = contacts_ab(seq![w.player.body], w.marbles, 1)[0].b as int;
            let a = w.player.body;
            let b = w.marbles[j];
            a.disp_spec(&b) is Some && masses_usable(a.mass as int, b.mass as int) ==> ({
                let push = momentum_impulse(
                    a,
                    b,
                    a.disp_spec(&b).unwrap(),
                    cfg.restitution as int,
                );
                &&& in_range(a.lin_mom.x - push.x) && in_range(b.lin_mom.x + push.x)
                &&& in_range(a.lin_mom.y - push.y) && in_range(b.lin_mom.y + push.y)
                &&& in_range(a.lin_mom.z - push.z) && in_range(b.lin_mom.z + push.z)
            })
        }),
    ensures
        ({
            let j = contacts_ab(seq![w.player.body], w.marbles, 1)[0].b as int;
            let after = collided(w, cfg);
            &&& 0 <= j < w.marbles.len()
            &&& after.player.body.lin_mom.x + after.marbles[j].lin_mom.x
                == w.player.body.lin_mom.x + w.marbles[j].lin_mom.x
            &&& after.player.body.lin_mom.y + after.marbles[j].lin_mom.y
                == w.player.body.lin_mom.y + w.marbles[j].lin_mom.y
            &&& after.player.body.lin_mom.z + after.marbles[j].lin_mom.z
                == w.player.body.lin_mom.z + w.marbles[j].lin_mom.z
        }),
{
    let pb = seq![w.player.body];
    let pv = seq![w.player.velocity];
    let walls = seq![w.wall.body];
    let boxes = seq![w.cubes[1].body];
    let pm = contacts_ab(pb, w.marbles, 1);
    let pw = contacts_ab(pb, walls, 1);
    let px = contacts_ab(pb, boxes, 1);
    let mw = contacts_ab(w.marbles, walls, w.marbles.len() as int);
    let mm = contacts_aa(w.marbles, w.marbles.len() as int);
    let s1 = restituted_stat(pb, pv, walls, pw, cfg);
    let s2 = restituted_stat(w.marbles, w.velocities, walls, mw, cfg);
    let s3 = restituted_stat(s1.0, s1.1, boxes, px, cfg);
    let s4 = restituted_dyns(s2.0, s2.1, mm, cfg);
    let s5 = restituted_dyn_dyn(s3.0, s3.1, s4.0, s4.1, pm, cfg);
    assert(s1 == (pb, pv));
    assert(s2 == (w.marbles, w.velocities));
    assert(s3 == (pb, pv));
    assert(s4 == (w.marbles, w.velocities));
    let c = pm[0];
    let j = c.b as int;
    crate::collision::lemma_contacts_ab(pb, w.marbles, 1);
    assert(crate::collision::is_contact_among(c, pb, w.marbles, 1, false));
    let i = choose|i: int|
        0 <= i < 1 && #[trigger] crate::collision::is_contact_in_row(
            c,
            pb,
            w.marbles,
            i,
            crate::collision::row_start(i, false),
            w.marbles.len() as int,
        );
    assert(c.a == 0 && 0 <= j < w.marbles.len());
    assert(pm.drop_last().len() == 0);
    assert(pm.last() == c);
    let first = restituted_dyn_dyn(pb, pv, w.marbles, w.velocities, pm.drop_last(), cfg);
    assert(first == (pb, pv, w.marbles, w.velocities));
    let now = settled_pair(pb[0], pv[0], w.marbles[j], w.velocities[j], cfg);
    assert(s5.0 == pb.update(0, now.0));
    assert(s5.2 == w.marbles.update(j, now.2));
    assert(slowed(s5.0[0], 0) == now.0);
    crate::collision::lemma_exchange_conserves_momentum(
        pb[0],
        pv[0],
        w.marbles[j],
        w.velocities[j],
        cfg,
    );
}

/// One tick takes gravity from the momentum of the player exactly once: a player that
/// no key pushes and that overlaps nothing ends the tick with `gravity * dt` less
/// vertical momentum and the rest of its momentum as it was. Here `mid` is the world
/// before the contacts of the tick are resolved. This holds where the momentum is
/// within the steering limit, or the top-down camera is in use, and the new momentum is
/// not clamped.
pub proof fn lemma_tick_applies_gravity_once(w: World, input: Input, cfg: Config, mid: World)
    requires
        w.wf(),
        !input.w && !input.a && !input.s && !input.d,
        w.use_alt_cam || (vmagnitude2(w.player.body.lin_mom) <= STEER_LIMIT && vmagnitude2(
            w.player.body.ang_mom,
        ) <= STEER_LIMIT),
        respawned(advanced(steered(triggered(w), input), input, cfg), mid),
        player_is_free(mid),
        in_range(w.player.body.lin_mom.x as int),
        in_range(w.player.body.lin_mom.y - fx_mul_spec(cfg.gravity as int, cfg.dt as int)),
        in_range(w.player.body.lin_mom.z as int),
    ensures
        collided(mid, cfg).player.body.lin_mom == (Vec3 {
            x: w.player.body.lin_mom.x,
            y: (w.player.body.lin_mom.y - fx_mul_spec(cfg.gravity as int, cfg.dt as int)) as i32,
            z: w.player.body.lin_mom.z,
        }),
{
    lemma_free_player_passes(mid, cfg);
    let steer = steered(triggered(w), input);
    assert(steer.player.body.lin_mom == w.player.body.lin_mom);
    crate::game::lemma_gravity_tick(steer.player, cfg);
}

/// What the camera in use shows.
pub open spec fn aimed(w: World, aim: Aim) -> Aim {
    if w.use_alt_cam {
        w.alt_camera.view()
    } else {
        Aim { eye: aim.eye, target: w.camera.player_pos }
    }
}

/// What a tick asks to be saved and played: the key that saves asks for the player's
/// position as it was when the keys were read, and the key that listens asks for the cue
/// to the first cube from where the player is at the end.
pub open spec fn effects_of(start: World, end: World, input: Input) -> Effects {
    Effects {
        save: if input.x {
            Some(start.player.body.c)
        } else {
            None
        },
        cue: if input.h {
            cue_for(
                sat(end.cubes[0].body.c.x - end.player.body.c.x),
                sat(end.cubes[0].body.c.z - end.player.body.c.z),
            )
        } else {
            None
        },
    }
}

/// Draws a number from `lo` up to, but not including, `hi`: `Rng::gen_range` of the
/// crate `rand`, on the generator of the current thread. The contract claims that the
/// number lies in that range, and nothing of which one it is.
#[verifier::external_body]
fn random_between(lo: i32, hi: i32) -> (r: i32)
    requires
        lo < hi,
    ensures
        lo <= r < hi,
{
    rand::thread_rng().gen_range(lo..hi)
}

/// A point of the spawn box, picked at random.
pub fn random_spawn() -> (p: Pos3)
    ensures
        in_spawn_box(p),
{
    let x: Scalar = random_between(-5 * ONE, 5 * ONE);
    let y: Scalar = random_between(ONE, 5 * ONE);
    let z: Scalar = random_between(-5 * ONE, 5 * ONE);
    Vec3 { x, y, z }
}

/// Computes `strayed`.
pub fn has_strayed(s: &Sphere) -> (r: bool)
    ensures
        r == strayed(*s),
{
    s.c.dot_wide(&s.c) >= STRAY_DISTANCE * STRAY_DISTANCE
}

impl Game {
    /// Whether each marble has its velocity, and the two cubes that a tick reads are there.
    pub open spec fn wf(&self) -> bool {
        self@.wf()
    }

    /// While the player touches the first cube, the first two cubes sink.
    pub fn trigger(&mut self)
        requires
            old(self).wf(),
        ensures
            final(self)@ == triggered(old(self)@),
            final(self).wf(),
    {
        if self.player.body.touching(&self.cubes[0].body) {
            self.cubes[0].velocity = Vec3 { x: 0, y: -ONE, z: 0 };
            self.cubes[1].velocity = Vec3 { x: 0, y: -ONE, z: 0 };
        }
    }

    /// Reads the held keys and the key that changes the camera.
    pub fn steer(&mut self, input: &Input)
        ensures
            final(self)@ == steered(old(self)@, *input),
            final(self).wf() == old(self).wf(),
    {
        self.player.acc = Vec3::zero();
        if self.use_alt_cam {
            if input.w {
                self.td_player.body.c.z = fx_sub(self.td_player.body.c.z, NUDGE);
            } else if input.s {
                self.td_player.body.c.z = fx_add(self.td_player.body.c.z, NUDGE);
            }
            if input.a {
                self.td_player.body.c.x = fx_sub(self.td_player.body.c.x, NUDGE);
            } else if input.d {
                self.td_player.body.c.x = fx_add(self.td_player.body.c.x, NUDGE);
            }
        } else {
            if input.w {
                self.player.apply_impulse(
                    Vec3 { x: 0, y: 0, z: NUDGE },
                    Vec3 { x: NUDGE, y: 0, z: 0 },
                );
            } else if input.s {
                self.player.apply_impulse(
                    Vec3 { x: 0, y: 0, z: -NUDGE },
                    Vec3 { x: -NUDGE, y: 0, z: 0 },
                );
            }
            if input.a {
                self.player.apply_impulse(
                    Vec3 { x: NUDGE, y: 0, z: 0 },
                    Vec3 { x: 0, y: 0, z: -NUDGE },
                );
            } else if input.d {
                self.player.apply_impulse(
                    Vec3 { x: -NUDGE, y: 0, z: 0 },
                    Vec3 { x: 0, y: 0, z: NUDGE },
                );
            }
            if self.player.body.lin_mom.magnitude2() > STEER_LIMIT {
                self.player.body.lin_mom = self.player.body.lin_mom.normalize_to(STEER_LIMIT);
            }
            if self.player.body.ang_mom.magnitude2() > STEER_LIMIT {
                self.player.body.ang_mom = self.player.body.ang_mom.normalize_to(STEER_LIMIT);
            }
            if input.q {
                self.player.omega = Vec3::unit_y();
            } else if input.e {
                self.player.omega = Vec3 { x: 0, y: -ONE, z: 0 };
            } else {
                self.player.omega = Vec3::zero();
            }
        }
        if input.c {
            self.use_alt_cam = !self.use_alt_cam;
            self.td_player = self.player;
        }
    }

    /// Lets the camera in use follow its player and advances every body by one tick.
    pub fn advance(&mut self, input: &Input, cfg: &Config)
        requires
            old(self).wf(),
        ensures
            final(self)@ == advanced(old(self)@, *input, *cfg),
            final(self).wf(),
    {
        if self.use_alt_cam {
            self.alt_camera.update(input.up, input.down, &self.td_player);
        } else {
            self.camera.update(input.mouse_dx, input.mouse_dy, input.up, input.down, &self.player);
        }
        self.player.integrate(cfg);
        self.marbles.integrate(cfg);
        let ghost goal = advanced(old(self)@, *input, *cfg);
        proof {
            assert(self.marbles.body@ =~= goal.marbles);
            assert(self.marbles.velocity@ =~= goal.velocities);
        }
        let n: usize = self.cubes.len();
        let mut i: usize = 0;
        while i < n
            invariant
                i <= n,
                n == self.cubes@.len(),
                n == old(self).cubes@.len(),
                goal == advanced(old(self)@, *input, *cfg),
                self.marbles.body@ == goal.marbles,
                self.marbles.velocity@ == goal.velocities,
                self.player == goal.player,
                self.td_player == goal.td_player,
                self.camera == goal.camera,
                self.alt_camera == goal.alt_camera,
                self.use_alt_cam == goal.use_alt_cam,
                self.wall == goal.wall,
                forall|k: int|
                    0 <= k < i ==> (#[trigger] self.cubes@[k]) == cubes_integrated(
                        old(self).cubes@,
                        *cfg,
                    )[k],
                forall|k: int| i <= k < n ==> (#[trigger] self.cubes@[k]) == old(self).cubes@[k],
            decreases n - i,
        {
            self.cubes[i].integrate(cfg);
            i += 1;
        }
        proof {
            assert(self.cubes@ =~= goal.cubes);
        }
    }

    /// Puts each marble that has strayed back into play, at rest, at a random place.
    pub fn respawn(&mut self)
        requires
            old(self).wf(),
        ensures
            respawned(old(self)@, final(self)@),
            final(self).wf(),
    {
        let n: usize = self.marbles.body.len();
        let mut i: usize = 0;
        while i < n
            invariant
                i <= n,
                n == self.marbles.body@.len(),
                n == self.marbles.velocity@.len(),
                n == old(self).marbles.body@.len(),
                n == old(self).marbles.velocity@.len(),
                self.cubes == old(self).cubes,
                self.wall == old(self).wall,
                self.player == old(self).player,
                self.td_player == old(self).td_player,
                self.camera == old(self).camera,
                self.alt_camera == old(self).alt_camera,
                self.use_alt_cam == old(self).use_alt_cam,
                forall|k: int|
                    0 <= k < i ==> if strayed(#[trigger] old(self).marbles.body@[k]) {
                        &&& in_spawn_box(self.marbles.body@[k].c)
                        &&& self.marbles.body@[k] == (Sphere {
                            c: self.marbles.body@[k].c,
                            ..old(self).marbles.body@[k]
                        })
                        &&& self.marbles.velocity@[k] == (Vec3 { x: 0, y: 0, z: 0 })
                    } else {
                        &&& self.marbles.body@[k] == old(self).marbles.body@[k]
                        &&& self.marbles.velocity@[k] == old(self).marbles.velocity@[k]
                    },
                forall|k: int|
                    i <= k < n ==> (#[trigger] self.marbles.body@[k]) == old(
                        self,
                    ).marbles.body@[k],
                forall|k: int|
                    i <= k < n ==> (#[trigger] self.marbles.velocity@[k]) == old(
                        self,
                    ).marbles.velocity@[k],
            decreases n - i,
        {
            if has_strayed(&self.marbles.body[i]) {
                let p: Pos3 = random_spawn();
                self.marbles.body[i].c = p;
                self.marbles.velocity[i] = Vec3::zero();
            }
            i += 1;
        }
    }
}

/// The five boxes of a new game: the one that triggers the sinking, and four walls.
pub open spec fn start_cubes() -> Seq<Cube> {
    seq![
        Cube {
            body: AABB {
                c: Vec3 { x: 1441792, y: 65536, z: 1441792 },
                half_sizes: Vec3 { x: 49152, y: 49152, z: 49152 },
            },
            velocity: Vec3 { x: 0, y: 0, z: 0 },
        },
        Cube {
            body: AABB {
                c: Vec3 { x: 65536, y: 65536, z: 2293760 },
                half_sizes: Vec3 { x: 983040, y: 327680, z: 65536 },
            },
            velocity: Vec3 { x: 0, y: 0, z: 0 },
        },
        Cube {
            body: AABB {
                c: Vec3 { x: 2293760, y: 65536, z: 65536 },
                half_sizes: Vec3 { x: 65536, y: 983040, z: 983040 },
            },
            velocity: Vec3 { x: 0, y: 0, z: 0 },
        },
        Cube {
            body: AABB {
                c: Vec3 { x: -2293760i32, y: 65536, z: 65536 },
                half_sizes: Vec3 { x: 65536, y: 983040, z: 983040 },
            },
            velocity: Vec3 { x: 0, y: 0, z: 0 },
        },
        Cube {
            body: AABB {
                c: Vec3 { x: 65536, y: 65536, z: -2293760i32 },
                half_sizes: Vec3 { x: 983040, y: 327680, z: 65536 },
            },
            velocity: Vec3 { x: 0, y: 0, z: 0 },
        },
    ]
}

/// The player of a new game: at rest on the floor, ten units out on two axes.
pub open spec fn start_player() -> Player {
    Player {
        body: Sphere {
            c: Vec3 { x: 655360, y: PLAYER_RADIUS, z: 655360 },
            r: PLAYER_RADIUS,
            lin_mom: Vec3 { x: 0, y: 0, z: 0 },
            ang_mom: Vec3 { x: 0, y: 0, z: 0 },
            mass: ONE,
        },
        velocity: Vec3 { x: 0, y: 0, z: 0 },
        acc: Vec3 { x: 0, y: 0, z: 0 },
        rot: Quat { s: ONE, v: Vec3 { x: 0, y: 0, z: 0 } },
        omega: Vec3 { x: 0, y: 0, z: 0 },
    }
}

/// Whether `s` is a marble as a new game makes them: at rest somewhere in the spawn box,
/// of unit mass, with a radius from a tenth of a unit up to one unit.
pub open spec fn fresh_marble(s: Sphere) -> bool {
    &&& in_spawn_box(s.c)
    &&& 6554 <= s.r < ONE
    &&& s.mass == ONE
    &&& s.lin_mom == (Vec3 { x: 0, y: 0, z: 0 })
    &&& s.ang_mom == (Vec3 { x: 0, y: 0, z: 0 })
}

/// A box at rest.
fn still_cube(cx: Scalar, cy: Scalar, cz: Scalar, hx: Scalar, hy: Scalar, hz: Scalar) -> (r: Cube)
    ensures
        r == (Cube {
            body: AABB { c: Vec3 { x: cx, y: cy, z: cz }, half_sizes: Vec3 { x: hx, y: hy, z: hz } },
            velocity: Vec3 { x: 0, y: 0, z: 0 },
        }),
{
    Cube {
        body: AABB { c: Vec3 { x: cx, y: cy, z: cz }, half_sizes: Vec3 { x: hx, y: hy, z: hz } },
        velocity: Vec3::zero(),
    }
}

/// Whether every contact names a shape of a collection of `m`.
pub open spec fn contacts_name(cs: Seq<Contact<usize>>, m: int) -> bool {
    forall|k: int| 0 <= k < cs.len() ==> (#[trigger] cs[k]).a < m
}

/// Computes `rubbed`.
pub fn rub(velocity: &mut Vec<Vec3>, contacts: &Vec<Contact<usize>>)
    requires
        contacts_name(contacts@, old(velocity)@.len() as int),
    ensures
        final(velocity)@ == rubbed(old(velocity)@, contacts@, contacts@.len() as int),
        final(velocity)@.len() == old(velocity)@.len(),
{
    let mut k: usize = 0;
    while k < contacts.len()
        invariant
            k <= contacts@.len(),
            velocity@.len() == old(velocity)@.len(),
            contacts_name(contacts@, velocity@.len() as int),
            velocity@ == rubbed(old(velocity)@, contacts@, k as int),
        decreases contacts@.len() - k,
    {
        let a: usize = contacts[k].a;
        let v: Vec3 = velocity[a].scaled(MARBLE_GRIP);
        velocity[a] = v;
        k += 1;
    }
}

/// Computes `slowed`.
pub fn slow(body: &Sphere, n: usize) -> (r: Sphere)
    ensures
        r == slowed(*body, n as int),
{
    let mut s: Sphere = *body;
    let mut j: usize = 0;
    while j < n
        invariant
            j <= n,
            s == slowed(*body, j as int),
        decreases n - j,
    {
        s.lin_mom = s.lin_mom.scaled(PLAYER_GRIP);
        s.ang_mom = s.ang_mom.scaled(PLAYER_GRIP);
        j += 1;
    }
    s
}

/// Resolves the contacts of one tick: player and wall, marbles and wall, player and cube,
/// marbles among themselves, player and marbles.
fn resolve_all(
    pb: &mut Vec<Sphere>,
    pv: &mut Vec<Vec3>,
    mb: &mut Vec<Sphere>,
    mv: &mut Vec<Vec3>,
    walls: &Vec<Plane>,
    boxes: &Vec<AABB>,
    pm: &Vec<Contact<usize>>,
    pw: &Vec<Contact<usize>>,
    px: &Vec<Contact<usize>>,
    mw: &Vec<Contact<usize>>,
    mm: &Vec<Contact<usize>>,
    cfg: &Config,
)
    requires
        old(pb)@.len() == 1,
        old(pv)@.len() == 1,
        old(mb)@.len() == old(mv)@.len(),
        walls@.len() == 1,
        boxes@.len() == 1,
        crate::collision::contacts_within(pm@, 1, old(mb)@.len() as int),
        crate::collision::contacts_within(pw@, 1, 1),
        crate::collision::contacts_within(px@, 1, 1),
        crate::collision::contacts_within(mw@, old(mb)@.len() as int, 1),
        crate::collision::contacts_within(mm@, old(mb)@.len() as int, old(mb)@.len() as int),
        crate::collision::contacts_distinct(mm@),
    ensures
        ({
            let s1 = restituted_stat(old(pb)@, old(pv)@, walls@, pw@, *cfg);
            let s2 = restituted_stat(old(mb)@, old(mv)@, walls@, mw@, *cfg);
            let s3 = restituted_stat(s1.0, s1.1, boxes@, px@, *cfg);
            let s4 = restituted_dyns(s2.0, s2.1, mm@, *cfg);
            (final(pb)@, final(pv)@, final(mb)@, final(mv)@) == restituted_dyn_dyn(
                s3.0,
                s3.1,
                s4.0,
                s4.1,
                pm@,
                *cfg,
            )
        }),
        final(pb)@.len() == 1,
        final(pv)@.len() == 1,
        final(mb)@.len() == old(mb)@.len(),
        final(mv)@.len() == old(mv)@.len(),
{
    restitute_dyn_stat(pb.as_mut_slice(), pv.as_mut_slice(), walls.as_slice(), pw.as_slice(), cfg);
    restitute_dyn_stat(mb.as_mut_slice(), mv.as_mut_slice(), walls.as_slice(), mw.as_slice(), cfg);
    restitute_dyn_stat(pb.as_mut_slice(), pv.as_mut_slice(), boxes.as_slice(), px.as_slice(), cfg);
    restitute_dyns(mb.as_mut_slice(), mv.as_mut_slice(), mm.as_slice(), cfg);
    restitute_dyn_dyn(
        pb.as_mut_slice(),
        pv.as_mut_slice(),
        mb.as_mut_slice(),
        mv.as_mut_slice(),
        pm.as_slice(),
        cfg,
    );
}

impl Game {
    /// A new game with `n_marbles` marbles, each put into play at random.
    pub fn start(n_marbles: usize) -> (g: Game)
        ensures
            g.wf(),
            g@.marbles.len() == n_marbles,
            forall|i: int| 0 <= i < n_marbles ==> fresh_marble(#[trigger] g@.marbles[i]),
            forall|i: int|
                0 <= i < n_marbles ==> (#[trigger] g@.velocities[i]) == (Vec3 { x: 0, y: 0, z: 0 }),
            g@.cubes == start_cubes(),
            g@.wall == (Wall {
                body: Plane { n: Vec3 { x: 0, y: ONE, z: 0 }, d: 0 },
                control: (0i8, 0i8),
            }),
            g@.player == start_player(),
            g@.td_player == start_player(),
            g@.camera == (OrbitCamera {
                pitch: 0,
                yaw: 0,
                distance: 327680,
                player_pos: Vec3 { x: 0, y: 0, z: 0 },
                player_rot: Quat { s: ONE, v: Vec3 { x: 0, y: 0, z: 0 } },
            }),
            g@.alt_camera == (TopDownCamera {
                distance: 983040,
                player_pos: Vec3 { x: 0, y: 0, z: 0 },
            }),
            !g@.use_alt_cam,
    {
        let mut body: Vec<Sphere> = Vec::new();
        let mut velocity: Vec<Vec3> = Vec::new();
        let mut i: usize = 0;
        while i < n_marbles
            invariant
                i <= n_marbles,
                body@.len() == i,
                velocity@.len() == i,
                forall|k: int| 0 <= k < i ==> fresh_marble(#[trigger] body@[k]),
                forall|k: int| 0 <= k < i ==> (#[trigger] velocity@[k]) == (Vec3 { x: 0, y: 0, z: 0 }),
            decreases n_marbles - i,
        {
            let c: Pos3 = random_spawn();
            let r: Scalar = random_between(6554, ONE);
            body.push(Sphere::new(c, r, ONE));
            velocity.push(Vec3::zero());
            i += 1;
        }
        let mut cubes: Vec<Cube> = Vec::new();
        cubes.push(still_cube(22 * ONE, ONE, 22 * ONE, 49152, 49152, 49152));
        cubes.push(still_cube(ONE, ONE, 35 * ONE, 15 * ONE, 5 * ONE, ONE));
        cubes.push(still_cube(35 * ONE, ONE, ONE, ONE, 15 * ONE, 15 * ONE));
        cubes.push(still_cube(-35 * ONE, ONE, ONE, ONE, 15 * ONE, 15 * ONE));
        cubes.push(still_cube(ONE, ONE, -35 * ONE, 15 * ONE, 5 * ONE, ONE));
        proof {
            assert(cubes@ =~= start_cubes());
        }
        let player: Player = Player::at(Vec3 { x: 10 * ONE, y: PLAYER_RADIUS, z: 10 * ONE });
        Game {
            marbles: Marbles { body, velocity },
            cubes,
            wall: Wall { body: Plane { n: Vec3::unit_y(), d: 0 }, control: (0, 0) },
            player,
            td_player: player,
            camera: OrbitCamera::new(),
            alt_camera: TopDownCamera::new(),
            use_alt_cam: false,
        }
    }

    /// Gathers the contacts of the tick, resolves them, and lets the wall slow down what
    /// touches it.
    pub fn collide(&mut self, cfg: &Config)
        requires
            old(self).wf(),
        ensures
            final(self)@ == collided(old(self)@, *cfg),
            final(self).wf(),
    {
        let mut pb: Vec<Sphere> = Vec::new();
        pb.push(self.player.body);
        let mut pv: Vec<Vec3> = Vec::new();
        pv.push(self.player.velocity);
        let mut walls: Vec<Plane> = Vec::new();
        walls.push(self.wall.body);
        let mut boxes: Vec<AABB> = Vec::new();
        boxes.push(self.cubes[1].body);
        proof {
            assert(pb@ =~= seq![self.player.body]);
            assert(pv@ =~= seq![self.player.velocity]);
            assert(walls@ =~= seq![self.wall.body]);
            assert(boxes@ =~= seq![self.cubes@[1].body]);
        }
        let pm: Vec<Contact<usize>> = gather_contacts_ab(
            pb.as_slice(),
            self.marbles.body.as_slice(),
        );
        let pw: Vec<Contact<usize>> = gather_contacts_ab(pb.as_slice(), walls.as_slice());
        let px: Vec<Contact<usize>> = gather_contacts_ab(pb.as_slice(), boxes.as_slice());
        let mw: Vec<Contact<usize>> = gather_contacts_ab(
            self.marbles.body.as_slice(),
            walls.as_slice(),
        );
        let mm: Vec<Contact<usize>> = gather_contacts_aa(self.marbles.body.as_slice());
        resolve_all(
            &mut pb,
            &mut pv,
            &mut self.marbles.body,
            &mut self.marbles.velocity,
            &walls,
            &boxes,
            &pm,
            &pw,
            &px,
            &mw,
            &mm,
            cfg,
        );
        rub(&mut self.marbles.velocity, &mw);
        self.player.body = slow(&pb[0], pw.len());
        self.player.velocity = pv[0];
    }

    /// Says what the tick asks to be saved and played.
    pub fn effects(&self, saved: Pos3, input: &Input) -> (r: Effects)
        requires
            self.wf(),
        ensures
            r.save == if input.x {
                Some(saved)
            } else {
                None
            },
            r.cue == if input.h {
                cue_for(
                    sat(self@.cubes[0].body.c.x - self@.player.body.c.x),
                    sat(self@.cubes[0].body.c.z - self@.player.body.c.z),
                )
            } else {
                None
            },
    {
        Effects {
            save: if input.x {
                Some(saved)
            } else {
                None
            },
            cue: if input.h {
                cue(
                    fx_sub(self.cubes[0].body.c.x, self.player.body.c.x),
                    fx_sub(self.cubes[0].body.c.z, self.player.body.c.z),
                )
            } else {
                None
            },
        }
    }

    /// Points `aim` where the camera in use looks.
    pub fn update_camera(&self, aim: &mut Aim)
        ensures
            *final(aim) == aimed(self@, *old(aim)),
    {
        if self.use_alt_cam {
            self.alt_camera.update_camera(aim);
        } else {
            self.camera.update_camera(aim);
        }
    }

    /// Runs one tick: the trigger, the keys, the advance of every body, the return of
    /// strayed marbles, the contacts, and then the camera and what is to be saved and
    /// played. Only the places of the returned marbles are left to chance.
    pub fn update(&mut self, input: &Input, cfg: &Config, aim: &mut Aim) -> (r: Effects)
        requires
            old(self).wf(),
        ensures
            final(self).wf(),
            exists|mid: World|
                respawned(
                    advanced(steered(triggered(old(self)@), *input), *input, *cfg),
                    mid,
                ) && final(self)@ == collided(mid, *cfg),
            *final(aim) == aimed(final(self)@, *old(aim)),
            r == effects_of(steered(triggered(old(self)@), *input), final(self)@, *input),
    {
        self.trigger();
        self.steer(input);
        let saved: Pos3 = self.player.body.c;
        self.advance(input, cfg);
        self.respawn();
        let ghost mid = self@;
        self.collide(cfg);
        self.update_camera(aim);
        self.effects(saved, input)
    }
}

} // verus!
