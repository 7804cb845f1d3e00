use engine3d::fixed::ONE;
use engine3d::game::{Aim, Cube, Marbles, Player, PLAYER_RADIUS};
use engine3d::geom::{Config, Sphere, AABB};
use engine3d::sound::Sweep;
use engine3d::vector::Vec3;
use engine3d::world::{has_strayed, random_spawn, rub, slow, Effects, Game, Input};
use engine3d::collision::Contact;

fn u(x: i32, y: i32, z: i32) -> Vec3 {
    Vec3::new(x, y, z)
}

fn idle() -> Input {
    Input {
        w: false,
        a: false,
        s: false,
        d: false,
        q: false,
        e: false,
        c: false,
        x: false,
        h: false,
        up: false,
        down: false,
        mouse_dx: 0,
        mouse_dy: 0,
    }
}

fn in_spawn_box(p: &Vec3) -> bool {
    -5 * ONE <= p.x && p.x < 5 * ONE && ONE <= p.y && p.y < 5 * ONE && -5 * ONE <= p.z
        && p.z < 5 * ONE
}

#[test]
fn new_game_is_laid_out() {
    let g = Game::start(0);
    assert!(g.marbles.body.is_empty() && g.marbles.velocity.is_empty());
    assert_eq!(g.player, Player::at(u(10 * ONE, PLAYER_RADIUS, 10 * ONE)));
    assert_eq!(g.td_player, g.player);
    assert_eq!(g.wall.body.n, Vec3::unit_y());
    assert_eq!(g.wall.body.d, 0);
    assert_eq!(g.wall.control, (0, 0));
    assert!(!g.use_alt_cam);
    assert_eq!(g.cubes.len(), 5);
    assert_eq!(
        g.cubes[0],
        Cube {
            body: AABB { c: u(22 * ONE, ONE, 22 * ONE), half_sizes: u(49152, 49152, 49152) },
            velocity: Vec3::zero()
        }
    );
    assert_eq!(g.cubes[1].body.c, u(ONE, ONE, 35 * ONE));
    assert_eq!(g.cubes[1].body.half_sizes, u(15 * ONE, 5 * ONE, ONE));
    assert_eq!(g.cubes[3].body.c, u(-35 * ONE, ONE, ONE));
    assert_eq!(g.cubes[4].body.c, u(ONE, ONE, -35 * ONE));
    assert_eq!(g.camera.distance, 5 * ONE);
    assert_eq!(g.alt_camera.distance, 15 * ONE);
}

#[test]
fn new_marbles_are_put_into_the_spawn_box() {
    let g = Game::start(40);
    assert_eq!(g.marbles.body.len(), 40);
    assert_eq!(g.marbles.velocity, vec![Vec3::zero(); 40]);
    for m in g.marbles.body.iter() {
        assert!(in_spawn_box(&m.c));
        assert!(6554 <= m.r && m.r < ONE);
        assert_eq!(m.mass, ONE);
        assert_eq!(m.lin_mom, Vec3::zero());
        assert_eq!(m.ang_mom, Vec3::zero());
    }
}

#[test]
fn random_spawns_differ() {
    let first = random_spawn();
    assert!(in_spawn_box(&first));
    let mut differs = false;
    for _ in 0..64 {
        let p = random_spawn();
        assert!(in_spawn_box(&p));
        differs = differs || p != first;
    }
    assert!(differs);
}

#[test]
fn strayed_marbles_come_back_at_rest() {
    let mut g = Game::start(0);
    g.marbles = Marbles {
        body: vec![
            Sphere::new(u(50 * ONE, 0, 0), ONE / 2, ONE),
            Sphere::new(u(ONE, 2 * ONE, 3 * ONE), ONE / 2, ONE),
            Sphere::new(u(0, 40 * ONE, 0), ONE / 4, 2 * ONE),
            Sphere::new(u(0, 40 * ONE - 1, 0), ONE / 4, 2 * ONE),
        ],
        velocity: vec![u(1, 2, 3); 4],
    };
    assert!(has_strayed(&g.marbles.body[0]));
    assert!(!has_strayed(&g.marbles.body[1]));
    assert!(has_strayed(&g.marbles.body[2]));
    assert!(!has_strayed(&g.marbles.body[3]));
    let before = g.marbles.clone();
    g.respawn();
    assert!(in_spawn_box(&g.marbles.body[0].c));
    assert_eq!(g.marbles.body[0].r, ONE / 2);
    assert_eq!(g.marbles.velocity[0], Vec3::zero());
    assert_eq!(g.marbles.body[1], before.body[1]);
    assert_eq!(g.marbles.velocity[1], u(1, 2, 3));
    assert!(in_spawn_box(&g.marbles.body[2].c));
    assert_eq!(g.marbles.body[2].mass, 2 * ONE);
    assert_eq!(g.marbles.velocity[2], Vec3::zero());
    assert_eq!(g.marbles.body[3], before.body[3]);
    assert_eq!(g.marbles.velocity[3], u(1, 2, 3));
}

#[test]
fn idle_tick_drops_the_player_onto_the_floor() {
    let mut g = Game::start(0);
    let mut aim = Aim { eye: u(1, 2, 3), target: u(0, 0, 0) };
    let fx = g.update(&idle(), &Config::default(), &mut aim);
    assert_eq!(fx, Effects { save: None, cue: None });
    assert_eq!(g.player.body.c, u(10 * ONE, PLAYER_RADIUS, 10 * ONE));
    assert_eq!(g.player.body.lin_mom, u(0, 962, 0));
    assert_eq!(g.player.velocity, u(0, 982, 0));
    assert_eq!(g.player.body.ang_mom, Vec3::zero());
    assert_eq!(aim, Aim { eye: u(1, 2, 3), target: u(10 * ONE, PLAYER_RADIUS, 10 * ONE) });
    assert_eq!(g.cubes[0].velocity, Vec3::zero());
    assert!(!g.use_alt_cam);
}

#[test]
fn keys_steer_the_player() {
    let mut g = Game::start(0);
    g.steer(&Input { w: true, a: true, q: true, ..idle() });
    assert_eq!(g.player.body.lin_mom, u(6554, 0, 6554));
    assert_eq!(g.player.body.ang_mom, u(6554, 0, -6554));
    assert_eq!(g.player.omega, Vec3::unit_y());
    g.steer(&Input { s: true, d: true, e: true, ..idle() });
    assert_eq!(g.player.body.lin_mom, Vec3::zero());
    assert_eq!(g.player.body.ang_mom, Vec3::zero());
    assert_eq!(g.player.omega, u(0, -ONE, 0));
    g.steer(&idle());
    assert_eq!(g.player.omega, Vec3::zero());
}

#[test]
fn steering_cuts_a_large_momentum() {
    let mut g = Game::start(0);
    g.player.body.lin_mom = u(2 * ONE, 0, 0);
    g.player.body.ang_mom = u(ONE, 0, ONE / 2);
    g.steer(&Input { w: true, a: true, ..idle() });
    assert_eq!(g.player.body.lin_mom, u(85101, 0, 4052));
    g.player.body.ang_mom = u(ONE, 0, ONE / 2);
    g.player.body.lin_mom = Vec3::zero();
    g.steer(&Input { s: true, d: true, ..idle() });
    assert_eq!(g.player.body.ang_mom, u(58982, 0, 39322));
}

#[test]
fn camera_key_changes_the_camera_and_moves_its_stand_in() {
    let mut g = Game::start(0);
    g.player.body.c = u(ONE, PLAYER_RADIUS, ONE);
    g.steer(&Input { c: true, ..idle() });
    assert!(g.use_alt_cam);
    assert_eq!(g.td_player, g.player);
    g.steer(&Input { w: true, d: true, ..idle() });
    assert_eq!(g.td_player.body.c, u(ONE + 6554, PLAYER_RADIUS, ONE - 6554));
    assert_eq!(g.player.body.c, u(ONE, PLAYER_RADIUS, ONE));
    g.steer(&Input { s: true, a: true, ..idle() });
    assert_eq!(g.td_player.body.c, u(ONE, PLAYER_RADIUS, ONE));
    let mut aim = Aim { eye: u(1, 2, 3), target: u(0, 0, 0) };
    let _ = g.update(&Input { up: true, ..idle() }, &Config::default(), &mut aim);
    assert_eq!(g.alt_camera.distance, 15 * ONE - ONE / 2);
    assert_eq!(aim.target, u(ONE, PLAYER_RADIUS, ONE));
    assert_eq!(aim.eye, u(ONE, PLAYER_RADIUS + 15 * ONE - ONE / 2, ONE + 66));
    g.steer(&Input { c: true, ..idle() });
    assert!(!g.use_alt_cam);
}

#[test]
fn touching_the_first_cube_sinks_two() {
    let mut g = Game::start(0);
    g.trigger();
    assert_eq!(g.cubes[0].velocity, Vec3::zero());
    g.player.body.c = u(22 * ONE, ONE + 49152 + PLAYER_RADIUS / 2, 22 * ONE);
    g.trigger();
    assert_eq!(g.cubes[0].velocity, u(0, -ONE, 0));
    assert_eq!(g.cubes[1].velocity, u(0, -ONE, 0));
    assert_eq!(g.cubes[2].velocity, Vec3::zero());
    g.advance(&idle(), &Config::default());
    assert_eq!(g.cubes[0].body.c, u(22 * ONE, ONE - 1092, 22 * ONE));
    assert_eq!(g.cubes[1].body.c, u(ONE, ONE - 1092, 35 * ONE));
    assert_eq!(g.cubes[2].body.c, u(35 * ONE, ONE, ONE));
}

#[test]
fn keys_ask_for_a_save_and_a_cue() {
    let mut g = Game::start(0);
    let mut aim = Aim { eye: Vec3::zero(), target: Vec3::zero() };
    let fx = g.update(&Input { x: true, h: true, ..idle() }, &Config::default(), &mut aim);
    assert_eq!(fx.save, Some(u(10 * ONE, PLAYER_RADIUS, 10 * ONE)));
    let cue = fx.cue.unwrap();
    assert_eq!(cue.across, Sweep::LeftToRight);
    assert_eq!(cue.across_by, 12 * ONE);
    assert_eq!(cue.along, Sweep::TopToBottom);
    assert_eq!(cue.along_by, 12 * ONE);
    assert_eq!(g.effects(u(7, 8, 9), &idle()), Effects { save: None, cue: None });
}

#[test]
fn marbles_collide_with_the_floor_and_each_other_in_a_tick() {
    let mut g = Game::start(0);
    g.marbles = Marbles {
        body: vec![
            Sphere::new(u(0, ONE / 2, 0), ONE / 2, ONE),
            Sphere::new(u(3 * ONE / 4, ONE / 2, 0), ONE / 2, ONE),
            Sphere::new(u(-20 * ONE, 9 * ONE, 0), ONE / 2, ONE),
        ],
        velocity: vec![Vec3::zero(); 3],
    };
    let mut aim = Aim { eye: Vec3::zero(), target: Vec3::zero() };
    let _ = g.update(&idle(), &Config::default(), &mut aim);
    let a = g.marbles.body[0];
    let b = g.marbles.body[1];
    assert_eq!(a.c.y, ONE / 2);
    assert_eq!(b.c.y, ONE / 2);
    let reach = (a.r + b.r) as i128;
    assert!(a.c.distance2_wide(&b.c) >= reach * reach);
    assert_eq!(g.marbles.body[2].c, u(-20 * ONE, 9 * ONE - 18, 0));
    assert_eq!(g.marbles.velocity[2], u(0, -1092, 0));
    assert_eq!(g.marbles.body.len(), 3);
    assert_eq!(g.marbles.velocity.len(), 3);
}

#[test]
fn wall_contacts_cost_a_share_of_the_motion() {
    let mut vels = vec![u(32768, 58982, 0), u(1, 1, 1), u(65536, 0, 0)];
    let contacts = vec![
        Contact { a: 0, b: 0, mtv: Vec3::zero() },
        Contact { a: 2, b: 0, mtv: Vec3::zero() },
    ];
    rub(&mut vels, &contacts);
    assert_eq!(vels, vec![u(32604, 58686, 0), u(1, 1, 1), u(65208, 0, 0)]);
    let mut s = Sphere::new(Vec3::zero(), ONE, ONE);
    s.lin_mom = u(32768, 58982, 0);
    s.ang_mom = u(65536, 0, 0);
    assert_eq!(slow(&s, 0), s);
    assert_eq!(slow(&s, 1).lin_mom, u(32112, 57802, 0));
    assert_eq!(slow(&s, 1).ang_mom, u(64225, 0, 0));
    assert_eq!(slow(&s, 2).lin_mom, u(31469, 56645, 0));
}

#[test]
fn one_tick_takes_gravity_from_a_free_player_once() {
    for alt in [false, true] {
        let mut g = Game::start(0);
        g.use_alt_cam = alt;
        g.player.body.c = u(0, 10 * ONE, 0);
        let mut aim = Aim { eye: Vec3::zero(), target: Vec3::zero() };
        let _ = g.update(&idle(), &Config::default(), &mut aim);
        assert_eq!(g.player.body.lin_mom, u(0, -1092, 0));
        assert_eq!(g.player.velocity, u(0, -1092, 0));
        assert_eq!(g.player.body.c, u(0, 10 * ONE - 18, 0));
        let _ = g.update(&idle(), &Config::default(), &mut aim);
        assert_eq!(g.player.body.lin_mom, u(0, -2184, 0));
        assert_eq!(g.player.body.c, u(0, 10 * ONE - 18 - 36, 0));
    }
}
