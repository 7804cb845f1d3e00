use engine3d::fixed::ONE;
use engine3d::geom::{
    Box, Collide, Config, NumericError, Plane, Ray, Shape, Sphere, AABB,
};
use engine3d::vector::{Mat3, Vec3};

fn p(x: f64, y: f64, z: f64) -> Vec3 {
    Vec3::new(
        (x * 65536.0).round() as i32,
        (y * 65536.0).round() as i32,
        (z * 65536.0).round() as i32,
    )
}

fn ball(x: f64, y: f64, z: f64, r: f64) -> Sphere {
    Sphere::new(p(x, y, z), (r * 65536.0).round() as i32, ONE)
}

fn floor() -> Plane {
    Plane { n: Vec3::unit_y(), d: 0 }
}

fn unit_box() -> AABB {
    AABB { c: Vec3::zero(), half_sizes: p(1.0, 1.0, 1.0) }
}

#[test]
fn default_config_holds_the_usual_constants() {
    let c = Config::default();
    assert_eq!(c.gravity, ONE);
    assert_eq!(c.dt, 1092);
    assert_eq!(c.restitution, 58982);
    assert_eq!(c.max_speed, 3 * ONE);
}

#[test]
fn touching_spheres_is_symmetric() {
    let a = ball(0.0, 0.0, 0.0, 1.0);
    for b in [ball(1.5, 0.0, 0.0, 1.0), ball(2.0, 0.0, 0.0, 1.0), ball(3.0, 1.0, -2.0, 0.5)] {
        assert_eq!(a.touching(&b), b.touching(&a));
        assert_eq!(a.disp(&b).map(|d| d.negated()), b.disp(&a));
    }
}

#[test]
fn tangent_spheres_touch_but_need_no_displacement() {
    let a = ball(0.0, 0.0, 0.0, 1.0);
    let b = ball(2.0, 0.0, 0.0, 1.0);
    assert!(a.touching(&b));
    assert_eq!(a.disp(&b), None);
}

#[test]
fn distant_spheres_do_not_touch() {
    let a = ball(0.0, 0.0, 0.0, 1.0);
    let b = ball(2.0, 0.0, 1.0, 1.0);
    assert!(!a.touching(&b));
    assert_eq!(a.disp(&b), None);
}

#[test]
fn overlapping_spheres_are_pushed_along_their_offset() {
    let a = ball(0.0, 0.0, 0.0, 1.0);
    let b = ball(1.5, 0.0, 0.0, 1.0);
    assert!(a.touching(&b));
    assert_eq!(a.disp(&b), Some(p(0.5, 0.0, 0.0)));
    assert_eq!(b.disp(&a), Some(p(-0.5, 0.0, 0.0)));
}

#[test]
fn displacement_is_rounded_away_from_zero() {
    let a = ball(0.0, 0.0, 0.0, 1.0);
    let b = Sphere::new(Vec3::new(19661, 26214, 32768), ONE, ONE);
    assert_eq!(a.disp(&b), Some(Vec3::new(35949, 47931, 59915)));
}

#[test]
fn displaced_spheres_no_longer_overlap() {
    let a = ball(0.0, 0.0, 0.0, 1.0);
    let mut b = Sphere::new(Vec3::new(19661, 26214, 32768), ONE, ONE);
    let d = a.disp(&b).unwrap();
    b.translate(d);
    assert_eq!(a.disp(&b), None);
    let mut a2 = ball(0.3, -0.2, 0.1, 0.7);
    let b2 = ball(0.5, 0.4, -0.3, 0.6);
    let d2 = a2.disp(&b2).unwrap();
    a2.translate(d2.negated());
    assert_eq!(a2.disp(&b2), None);
    assert!(!a2.touching(&b2) || a2.c.distance2_wide(&b2.c) == {
        let r = (a2.r + b2.r) as i128;
        r * r
    });
}

#[test]
fn coincident_spheres_get_the_zero_displacement() {
    let a = ball(1.0, 1.0, 1.0, 1.0);
    let b = ball(1.0, 1.0, 1.0, 2.0);
    assert!(a.touching(&b));
    assert_eq!(a.disp(&b), Some(Vec3::zero()));
}

#[test]
fn sphere_resting_on_a_plane_touches_it() {
    let s = ball(3.0, 0.3, -2.0, 0.3);
    assert!(s.touching(&floor()));
    assert_eq!(s.disp(&floor()), Some(Vec3::zero()));
}

#[test]
fn sphere_sunk_into_a_plane_is_lifted_to_rest() {
    let mut s = ball(0.0, 0.5, 0.0, 1.0);
    assert!(s.touching(&floor()));
    assert_eq!(s.disp(&floor()), Some(p(0.0, 0.5, 0.0)));
    let d = s.disp(&floor()).unwrap();
    s.translate(d);
    assert_eq!(s.c, p(0.0, 1.0, 0.0));
    assert_eq!(s.disp(&floor()), Some(Vec3::zero()));
}

#[test]
fn sphere_below_a_plane_is_pushed_to_the_side_of_the_normal() {
    let s = ball(0.0, -0.5, 0.0, 1.0);
    assert!(s.touching(&floor()));
    assert_eq!(s.disp(&floor()), Some(p(0.0, 1.5, 0.0)));
}

#[test]
fn sphere_away_from_a_plane_does_not_touch_it() {
    let s = ball(0.0, 1.5, 0.0, 1.0);
    assert!(!s.touching(&floor()));
    assert_eq!(s.disp(&floor()), None);
    let t = ball(0.0, -1.5, 0.0, 1.0);
    assert!(!t.touching(&floor()));
}

#[test]
fn plane_with_an_offset_and_a_slanted_normal() {
    let wall = Plane { n: p(0.6, 0.8, 0.0), d: ONE };
    let s = ball(1.0, 1.0, 0.0, 1.0);
    // p . n = 0.6 + 0.8 = 1.4 up to rounding, so the centre is 0.4 above the plane.
    assert!(s.touching(&wall));
    assert_eq!(s.disp(&wall), Some(Vec3::new(23592, 31456, 0)));
}

#[test]
fn sphere_near_a_box_is_pushed_off_its_nearest_point() {
    let s = ball(1.5, 0.0, 0.0, 1.0);
    assert!(s.touching(&unit_box()));
    assert_eq!(s.disp(&unit_box()), Some(p(0.5, 0.0, 0.0)));
    let t = ball(0.0, -1.25, 0.0, 0.5);
    assert_eq!(t.disp(&unit_box()), Some(p(0.0, -0.25, 0.0)));
}

#[test]
fn sphere_tangent_to_a_box_does_not_touch_it() {
    let s = ball(2.0, 0.0, 0.0, 1.0);
    assert!(!s.touching(&unit_box()));
    assert_eq!(s.disp(&unit_box()), None);
}

#[test]
fn box_reaches_one_half_size_for_touching_and_displacement_alike() {
    // A sphere that would overlap a box of twice the size overlaps neither way.
    let s = ball(2.5, 0.0, 0.0, 1.0);
    assert!(!s.touching(&unit_box()));
    assert_eq!(s.disp(&unit_box()), None);
    let t = ball(1.9, 0.0, 0.0, 1.0);
    assert_eq!(t.touching(&unit_box()), t.disp(&unit_box()).is_some());
}

#[test]
fn sphere_centred_inside_a_box_gets_the_zero_displacement() {
    let s = ball(0.5, 0.5, 0.5, 1.0);
    assert!(s.touching(&unit_box()));
    assert_eq!(s.disp(&unit_box()), Some(Vec3::zero()));
}

#[test]
fn sphere_at_a_corner_of_a_box() {
    let s = ball(1.3, 1.4, 0.0, 1.0);
    // gap (0.3, 0.4, 0), half a unit long: pushed by another half.
    assert_eq!(s.disp(&unit_box()), Some(Vec3::new(19662, 26215, 0)));
}

#[test]
fn translate_moves_what_may_move() {
    let mut s = ball(0.0, 0.0, 0.0, 1.0);
    s.translate(p(1.0, 2.0, 3.0));
    assert_eq!(s.c, p(1.0, 2.0, 3.0));
    let mut b = unit_box();
    b.translate(p(0.0, -1.0, 0.0));
    assert_eq!(b.c, p(0.0, -1.0, 0.0));
    let mut o = Box { c: Vec3::zero(), axes: Mat3::identity(), half_sizes: p(1.0, 1.0, 1.0) };
    o.translate(p(2.0, 0.0, 0.0));
    assert_eq!(o.c, p(2.0, 0.0, 0.0));
    let mut r = Ray { p: Vec3::zero(), dir: Vec3::unit_x() };
    r.translate(p(0.0, 0.0, 4.0));
    assert_eq!(r.p, p(0.0, 0.0, 4.0));
    assert_eq!(r.dir, Vec3::unit_x());
}

#[test]
fn impulse_bounces_a_falling_sphere() {
    let mut s = ball(0.0, 0.3, 0.0, 0.3);
    s.lin_mom = p(0.0, -1.0, 0.0);
    let r = s.apply_impulse(p(0.0, 1.0, 0.0), &Config::default());
    assert_eq!(r, Ok(()));
    assert_eq!(s.lin_mom, Vec3::new(0, 58982, 0));
    assert_eq!(s.ang_mom, Vec3::zero());
    assert_eq!(s.c, p(0.0, 0.3, 0.0));
}

#[test]
fn impulse_on_a_slanted_contact() {
    let mut s = ball(0.0, 0.3, 0.0, 0.3);
    s.lin_mom = Vec3::new(32768, -65536, 16384);
    s.ang_mom = Vec3::new(6554, 0, -13107);
    assert_eq!(s.moment_of_inertia(), 2359);
    let r = s.apply_impulse(Vec3::new(6554, 13107, -3277), &Config::default());
    assert_eq!(r, Ok(()));
    assert_eq!(s.lin_mom, Vec3::new(71310, 11543, -2887));
    assert_eq!(s.ang_mom, Vec3::new(6554, 0, -13107));
}

#[test]
fn impulse_with_no_direction_changes_nothing() {
    let mut s = ball(0.0, 0.3, 0.0, 0.3);
    s.lin_mom = p(0.5, -1.0, 0.0);
    let r = s.apply_impulse(Vec3::zero(), &Config::default());
    assert_eq!(r, Ok(()));
    assert_eq!(s.lin_mom, p(0.5, -1.0, 0.0));
}

#[test]
fn impulse_fails_without_mass() {
    let mut s = ball(0.0, 0.3, 0.0, 0.3);
    s.mass = 0;
    s.lin_mom = p(0.0, -1.0, 0.0);
    let r = s.apply_impulse(p(0.0, 1.0, 0.0), &Config::default());
    assert_eq!(r, Err(NumericError::ZeroMass));
    assert_eq!(s.lin_mom, p(0.0, -1.0, 0.0));
}

#[test]
fn impulse_fails_without_radius() {
    let mut s = ball(0.0, 0.3, 0.0, 0.0);
    s.lin_mom = p(0.0, -1.0, 0.0);
    let r = s.apply_impulse(p(0.0, 1.0, 0.0), &Config::default());
    assert_eq!(r, Err(NumericError::SingularInertia));
    assert_eq!(s.lin_mom, p(0.0, -1.0, 0.0));
    let mut tiny = Sphere::new(Vec3::zero(), 5, 1);
    assert_eq!(
        tiny.apply_impulse(p(0.0, 1.0, 0.0), &Config::default()),
        Err(NumericError::SingularInertia)
    );
}

#[test]
fn displaced_sphere_no_longer_touches_the_box() {
    let mut s = ball(1.3, 1.4, 0.2, 1.0);
    let d = s.disp(&unit_box()).unwrap();
    s.translate(d);
    assert!(!s.touching(&unit_box()));
    assert_eq!(s.disp(&unit_box()), None);
    let mut t = ball(-1.9, 0.0, 0.0, 1.0);
    let e = t.disp(&unit_box()).unwrap();
    t.translate(e);
    assert_eq!(t.c, p(-2.0, 0.0, 0.0));
    assert!(!t.touching(&unit_box()));
}

#[test]
fn displaced_spheres_end_tangent_but_for_rounding() {
    let a = ball(0.0, 0.0, 0.0, 1.0);
    let offsets = [
        Vec3::new(1, 1, 1),
        Vec3::new(19661, 26214, 32768),
        Vec3::new(-3, 70000, 12),
        Vec3::new(100000, -50000, 25000),
        Vec3::new(0, 0, -131071),
    ];
    for c in offsets {
        let mut b = Sphere::new(c, ONE, ONE);
        let d = a.disp(&b).unwrap();
        b.translate(d);
        let reach = (a.r + b.r) as i128;
        let apart = a.c.distance2_wide(&b.c);
        assert!(apart >= reach * reach);
        assert!(apart <= (reach + 4) * (reach + 4));
        assert_eq!(a.disp(&b), None);
    }
    let mut near = Sphere::new(Vec3::new(1, 1, 1), ONE, ONE);
    assert_eq!(a.disp(&near), Some(Vec3::new(75674, 75674, 75674)));
    near.translate(Vec3::new(75674, 75674, 75674));
    assert_eq!(near.c, Vec3::new(75675, 75675, 75675));
}

#[test]
fn lifted_sphere_rests_on_the_plane_but_for_rounding() {
    let shelf = Plane { n: Vec3::new(39322, 52429, 0), d: ONE };
    let mut s = ball(1.0, 1.0, 0.0, 1.0);
    let d = s.disp(&shelf).unwrap();
    s.translate(d);
    let above = (s.c.dot_wide(&shelf.n) / 65536 - shelf.d as i128) as i32;
    assert!((above - s.r).abs() <= 3);
    assert_eq!(above, 65535);
    assert_eq!(s.disp(&shelf), Some(Vec3::zero()));
    let mut t = ball(2.0, 0.25, -1.0, 1.0);
    let e = t.disp(&floor()).unwrap();
    t.translate(e);
    assert_eq!(t.c, p(2.0, 1.0, -1.0));
    assert_eq!(t.disp(&floor()), Some(Vec3::zero()));
}

#[test]
fn opposite_impulses_keep_the_sum_of_momenta() {
    let elastic = Config { restitution: ONE, ..Config::default() };
    let n = Vec3::unit_y();
    let mut a = ball(0.0, 0.0, 0.0, 1.0);
    a.lin_mom = Vec3::new(32768, 49152, 0);
    let mut b = ball(0.0, 2.0, 0.0, 1.0);
    b.lin_mom = Vec3::new(16384, -49152, 6554);
    let before = a.lin_mom.plus(&b.lin_mom);
    assert_eq!(a.apply_impulse(n.negated(), &elastic), Ok(()));
    assert_eq!(b.apply_impulse(n, &elastic), Ok(()));
    assert_eq!(a.lin_mom, Vec3::new(32768, -49152, 0));
    assert_eq!(b.lin_mom, Vec3::new(16384, 49152, 6554));
    assert_eq!(a.lin_mom.plus(&b.lin_mom), before);
    let slant = Vec3::new(39322, 52429, 0);
    let mut c = ball(0.0, 0.0, 0.0, 1.0);
    c.lin_mom = Vec3::new(ONE, ONE / 2, 0);
    let mut d = ball(0.0, 2.0, 0.0, 1.0);
    d.lin_mom = Vec3::new(52429, -39322, 0).minus(&c.lin_mom);
    assert_eq!(c.apply_impulse(slant.negated(), &elastic), Ok(()));
    assert_eq!(d.apply_impulse(slant, &elastic), Ok(()));
    assert_eq!(c.lin_mom, Vec3::new(-13108, -72090, 0));
    assert_eq!(d.lin_mom, Vec3::new(65537, 32768, 0));
    assert_eq!(c.lin_mom.plus(&d.lin_mom), Vec3::new(52429, -39322, 0));
}
