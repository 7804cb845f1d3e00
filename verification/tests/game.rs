use engine3d::fixed::ONE;
use engine3d::game::{
    gravity_step, limit_speed, spin, turn, zoom, Aim, Cube, FPCamera, Marbles, OrbitCamera,
    Player, TopDownCamera, Wall, PLAYER_RADIUS, QUARTER_PI,
};
use engine3d::geom::{Config, Plane, Sphere, AABB};
use engine3d::save_load::{new_save, start_position, Location, SaveFile};
use engine3d::vector::{Quat, Vec3};

fn q(x: i32, y: i32, z: i32) -> Vec3 {
    Vec3::new(x, y, z)
}

#[test]
fn gravity_takes_exactly_its_share_of_a_player_at_rest() {
    let cfg = Config::default();
    let mut p = Player::at(q(0, 3 * ONE, 0));
    p.integrate(&cfg);
    assert_eq!(p.body.lin_mom, q(0, -1092, 0));
    assert_eq!(gravity_step(&cfg), q(0, -1092, 0));
    p.integrate(&cfg);
    assert_eq!(p.body.lin_mom, q(0, -2184, 0));
    let strong = Config { gravity: 10 * ONE, dt: ONE / 2, ..cfg };
    let mut r = Player::at(q(0, 3 * ONE, 0));
    r.integrate(&strong);
    assert_eq!(r.body.lin_mom, q(0, -5 * ONE, 0));
}

#[test]
fn position_follows_the_momentum_that_gravity_has_changed() {
    let mut p = Player::at(q(0, 3 * ONE, 0));
    p.integrate(&Config::default());
    assert_eq!(p.velocity, q(0, -1092, 0));
    assert_eq!(p.body.c, q(0, 196590, 0));
    assert_eq!(p.rot, Quat::identity());
    assert_eq!(p.omega, Vec3::zero());
}

#[test]
fn player_is_held_to_the_speed_limit() {
    let mut p = Player::at(q(0, 3 * ONE, 0));
    p.body.lin_mom = q(4 * ONE, 0, 0);
    p.body.ang_mom = q(0, ONE, 0);
    p.integrate(&Config::default());
    assert_eq!(p.body.lin_mom, q(262144, -1092, 0));
    assert_eq!(p.velocity, q(196606, -818, 0));
    assert_eq!(p.body.c, q(3275, 196595, 0));
    assert_eq!(p.omega, q(0, ONE, 0));
    assert_eq!(p.rot, Quat::new(65534, 0, 545, 0));
    assert_eq!(limit_speed(&q(4 * ONE, 0, 0), 3 * ONE), q(3 * ONE, 0, 0));
    assert_eq!(limit_speed(&q(3 * ONE, 0, 0), 3 * ONE), q(3 * ONE, 0, 0));
}

#[test]
fn orientation_stays_of_unit_norm() {
    let mut p = Player::at(q(ONE, 3 * ONE, -ONE));
    p.body.lin_mom = q(32768, 16384, -65536);
    p.body.ang_mom = q(32768, 65536, -16384);
    p.rot = Quat::new(46341, 0, 46341, 0);
    p.integrate(&Config::default());
    assert_eq!(p.body.c, q(66082, 196862, -66628));
    assert_eq!(p.body.lin_mom, q(32768, 15292, -65536));
    assert_eq!(p.rot, Quat::new(45952, 288, 46724, 95));
    assert_eq!(spin(&Quat::identity(), &q(32768, 65536, -16384), 1092), Quat::new(65534, 272, 545, -135));
    let mut r = Quat::identity();
    for _ in 0..1000 {
        r = spin(&r, &q(0, 3 * ONE, 0), 1092);
        let n2 = (r.s as i64).pow(2) + r.v.dot_wide(&r.v) as i64;
        let one = (ONE as i64).pow(2);
        assert!((n2 - one).abs() < one / 1000);
    }
}

#[test]
fn impulses_add_to_the_momenta() {
    let mut p = Player::at(Vec3::zero());
    p.apply_impulse(q(1, 2, 3), q(4, 5, 6));
    p.apply_impulse(q(10, 20, 30), q(40, 50, 60));
    assert_eq!(p.body.lin_mom, q(11, 22, 33));
    assert_eq!(p.body.ang_mom, q(44, 55, 66));
}

#[test]
fn new_player_stands_where_the_save_says() {
    let save = SaveFile {
        player_location: Location { x: 1, y: 2, z: 3 },
        button_location: Location { x: 4, y: 5, z: 6 },
        wall_location: Location { x: 7, y: 8, z: 9 },
    };
    let p = Player::new(&Some(save));
    assert_eq!(p.body.c, q(1, 2, 3));
    assert_eq!(p.body.r, PLAYER_RADIUS);
    assert_eq!(p.body.mass, ONE);
    assert_eq!(p.rot, Quat::identity());
    assert_eq!(p, Player::at(q(1, 2, 3)));
}

#[test]
fn new_player_without_a_save_starts_afresh() {
    let p = Player::new(&None);
    assert_eq!(p.body.c, q(0, 3 * ONE, 0));
    assert_eq!(start_position(&None), q(0, 3 * ONE, 0));
    assert_eq!(p.body.lin_mom, Vec3::zero());
}

#[test]
fn save_records_the_three_positions() {
    let s = new_save(q(1, 2, 3), q(4, 5, 6), q(7, 8, 9));
    assert_eq!(s.player_location, Location { x: 1, y: 2, z: 3 });
    assert_eq!(s.button_location, Location { x: 4, y: 5, z: 6 });
    assert_eq!(s.wall_location, Location { x: 7, y: 8, z: 9 });
    assert_eq!(s.wall_location.position(), q(7, 8, 9));
    assert_eq!(Location::of(&q(-1, 0, 1)), Location { x: -1, y: 0, z: 1 });
    assert_eq!(start_position(&Some(s)), q(1, 2, 3));
}

#[test]
fn marbles_fall_by_their_new_velocity() {
    let mut m = Marbles {
        body: vec![Sphere::new(q(0, 5 * ONE, 0), ONE, ONE), Sphere::new(q(ONE, ONE, ONE), ONE, ONE)],
        velocity: vec![q(ONE, 0, 0), q(0, 0, 0)],
    };
    m.integrate(&Config::default());
    assert_eq!(m.velocity, vec![q(65536, -1092, 0), q(0, -1092, 0)]);
    assert_eq!(m.body[0].c, q(1092, 327662, 0));
    assert_eq!(m.body[1].c, q(ONE, ONE - 18, ONE));
    assert_eq!(m.body[0].lin_mom, Vec3::zero());
    let mut none = Marbles { body: vec![], velocity: vec![] };
    none.integrate(&Config::default());
    assert!(none.body.is_empty() && none.velocity.is_empty());
}

#[test]
fn wall_reads_its_keys() {
    let mut w = Wall { body: Plane { n: Vec3::unit_y(), d: 0 }, control: (0, 0) };
    w.input(true, false, false, true);
    assert_eq!(w.control, (-1, 1));
    w.input(true, true, true, true);
    assert_eq!(w.control, (-1, -1));
    w.input(false, true, false, false);
    assert_eq!(w.control, (1, 0));
    w.input(false, false, false, false);
    assert_eq!(w.control, (0, 0));
    assert_eq!(w.body, Plane { n: Vec3::unit_y(), d: 0 });
}

#[test]
fn wall_leans_with_its_controls() {
    let mut w = Wall { body: Plane { n: Vec3::unit_y(), d: 7 }, control: (-1, 1) };
    w.integrate(&Config::default());
    assert_eq!(w.body.n, q(-435, 65534, 435));
    assert_eq!(w.body.d, 7);
    assert_eq!(w.control, (-1, 1));
    let mut still = Wall { body: Plane { n: Vec3::unit_y(), d: 0 }, control: (0, 0) };
    still.integrate(&Config::default());
    assert_eq!(still.body.n, Vec3::unit_y());
}

#[test]
fn cube_moves_by_its_velocity() {
    let mut c = Cube {
        body: AABB { c: q(ONE, ONE, ONE), half_sizes: q(1, 2, 3) },
        velocity: q(0, -ONE, 0),
    };
    c.integrate(&Config::default());
    assert_eq!(c.body.c, q(65536, 64444, 65536));
    assert_eq!(c.body.half_sizes, q(1, 2, 3));
    assert_eq!(c.velocity, q(0, -ONE, 0));
}

#[test]
fn angles_turn_by_a_hundredth_and_stay_within_their_limit() {
    assert_eq!(turn(0, 10 * ONE, QUARTER_PI), 6553);
    assert_eq!(turn(0, -200 * ONE, QUARTER_PI), -QUARTER_PI);
    assert_eq!(turn(0, 200 * ONE, QUARTER_PI), QUARTER_PI);
    assert_eq!(turn(1000, -250, QUARTER_PI), 998);
}

#[test]
fn zoom_moves_by_half_a_unit() {
    assert_eq!(zoom(5 * ONE, true, false), 5 * ONE - ONE / 2);
    assert_eq!(zoom(5 * ONE, false, true), 5 * ONE + ONE / 2);
    assert_eq!(zoom(5 * ONE, true, true), 5 * ONE);
    assert_eq!(zoom(5 * ONE, false, false), 5 * ONE);
}

#[test]
fn first_person_camera_follows_the_player() {
    let mut p = Player::at(q(ONE, 2 * ONE, 3 * ONE));
    p.rot = Quat::new(0, 0, ONE, 0);
    let mut c = FPCamera::new();
    assert_eq!(c.pitch, 0);
    c.update(10 * ONE, &p);
    assert_eq!(c.pitch, 6553);
    assert_eq!(c.player_pos, p.body.c);
    assert_eq!(c.player_rot, p.rot);
    assert_eq!(c.eye(), q(ONE, 2 * ONE + ONE / 2, 3 * ONE));
    c.update(1000 * ONE, &p);
    assert_eq!(c.pitch, QUARTER_PI);
}

#[test]
fn orbit_camera_follows_the_mouse_and_the_player() {
    let p = Player::at(q(ONE, 2 * ONE, 3 * ONE));
    let mut c = OrbitCamera::new();
    assert_eq!((c.pitch, c.yaw, c.distance), (0, 0, 5 * ONE));
    c.update(-10 * ONE, 1000 * ONE, true, false, &p);
    assert_eq!(c.yaw, -6553);
    assert_eq!(c.pitch, QUARTER_PI);
    assert_eq!(c.distance, 5 * ONE - ONE / 2);
    assert_eq!(c.player_pos, p.body.c);
    c.update(-1000 * ONE, 0, false, true, &p);
    assert_eq!(c.yaw, -QUARTER_PI);
    assert_eq!(c.distance, 5 * ONE);
    let mut aim = Aim { eye: q(9, 9, 9), target: q(0, 0, 0) };
    c.update_camera(&mut aim);
    assert_eq!(aim, Aim { eye: q(9, 9, 9), target: p.body.c });
}

#[test]
fn top_down_camera_looks_from_above() {
    let p = Player::at(q(ONE, 2 * ONE, 3 * ONE));
    let mut c = TopDownCamera::new();
    assert_eq!(c.distance, 15 * ONE);
    c.update(false, true, &p);
    assert_eq!(c.distance, 15 * ONE + ONE / 2);
    let mut aim = Aim { eye: q(9, 9, 9), target: q(0, 0, 0) };
    c.update_camera(&mut aim);
    assert_eq!(aim.target, p.body.c);
    assert_eq!(aim.eye, q(ONE, 17 * ONE + ONE / 2, 3 * ONE + 66));
}

#[test]
fn marble_without_a_velocity_stays_where_it_is() {
    let mut m = Marbles {
        body: vec![Sphere::new(q(0, 5 * ONE, 0), ONE, ONE), Sphere::new(q(ONE, ONE, ONE), ONE, ONE)],
        velocity: vec![q(ONE, 0, 0)],
    };
    m.integrate(&Config::default());
    assert_eq!(m.velocity, vec![q(65536, -1092, 0)]);
    assert_eq!(m.body[0].c, q(1092, 327662, 0));
    assert_eq!(m.body[1].c, q(ONE, ONE, ONE));
    let mut more = Marbles { body: vec![], velocity: vec![q(0, 0, 0), q(1, 1, 1)] };
    more.integrate(&Config::default());
    assert_eq!(more.velocity, vec![q(0, -1092, 0), q(1, -1091, 1)]);
}
