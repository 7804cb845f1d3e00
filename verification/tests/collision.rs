use engine3d::collision::{
    gather_contacts_aa, gather_contacts_ab, reflect, restitute_dyn_dyn, restitute_dyn_stat,
    restitute_dyns, settle_pair, Contact,
};
use engine3d::fixed::ONE;
use engine3d::geom::{Collide, Config, Plane, Sphere, AABB};
use engine3d::vector::Vec3;

fn w(x: i32, y: i32, z: i32) -> Vec3 {
    Vec3::new(x, y, z)
}

fn marble(x: i32, y: i32, z: i32) -> Sphere {
    Sphere::new(w(x, y, z), ONE, ONE)
}

fn table() -> Plane {
    Plane { n: Vec3::unit_y(), d: 0 }
}

fn elastic() -> Config {
    Config { restitution: ONE, ..Config::default() }
}

#[test]
fn no_overlap_gathers_no_contact() {
    let spheres = vec![marble(0, 0, 0), marble(3 * ONE, 0, 0), marble(0, 3 * ONE, 0)];
    assert_eq!(gather_contacts_aa(&spheres), vec![]);
    let walls = vec![Plane { n: Vec3::unit_y(), d: -5 * ONE }];
    assert_eq!(gather_contacts_ab(&spheres, &walls), vec![]);
    let boxes = vec![AABB { c: w(0, 0, 9 * ONE), half_sizes: w(ONE, ONE, ONE) }];
    assert_eq!(gather_contacts_ab(&spheres, &boxes), vec![]);
    let none: Vec<Sphere> = vec![];
    assert_eq!(gather_contacts_aa(&none), vec![]);
    assert_eq!(gather_contacts_ab(&none, &walls), vec![]);
}

#[test]
fn tangent_spheres_gather_no_contact() {
    let spheres = vec![marble(0, 0, 0), marble(2 * ONE, 0, 0)];
    assert_eq!(gather_contacts_aa(&spheres), vec![]);
}

#[test]
fn contacts_within_a_group_come_once_and_in_order() {
    let spheres = vec![
        marble(0, 0, 0),
        marble(3 * ONE / 2, 0, 0),
        marble(9 * ONE, 0, 0),
        marble(3 * ONE, 0, 0),
    ];
    assert_eq!(
        gather_contacts_aa(&spheres),
        vec![
            Contact { a: 0, b: 1, mtv: w(ONE / 2, 0, 0) },
            Contact { a: 1, b: 3, mtv: w(ONE / 2, 0, 0) },
        ]
    );
}

#[test]
fn contacts_between_groups_come_row_by_row() {
    let a = vec![marble(0, 0, 0), marble(0, 9 * ONE, 0), marble(3 * ONE / 2, 0, 0)];
    let b = vec![marble(3 * ONE / 4, 0, 0), marble(0, 8 * ONE, 0)];
    let found = gather_contacts_ab(&a, &b);
    assert_eq!(
        found,
        vec![
            Contact { a: 0, b: 0, mtv: a[0].disp(&b[0]).unwrap() },
            Contact { a: 1, b: 1, mtv: w(0, -ONE, 0) },
            Contact { a: 2, b: 0, mtv: a[2].disp(&b[0]).unwrap() },
        ]
    );
    assert_eq!(found[0].mtv, w(5 * ONE / 4, 0, 0));
    assert_eq!(found[2].mtv, w(-5 * ONE / 4, 0, 0));
}

#[test]
fn spheres_against_the_table() {
    let spheres = vec![marble(0, ONE / 2, 0), marble(0, 5 * ONE, 0), marble(ONE, ONE, 0)];
    assert_eq!(
        gather_contacts_ab(&spheres, &[table()]),
        vec![
            Contact { a: 0, b: 0, mtv: w(0, ONE / 2, 0) },
            Contact { a: 2, b: 0, mtv: w(0, 0, 0) },
        ]
    );
}

#[test]
fn velocity_is_reflected_by_the_restitution() {
    assert_eq!(reflect(&w(32768, -65536, 0), &w(0, ONE, 0), 58982), w(32768, 58982, 0));
    assert_eq!(reflect(&w(32768, -65536, 0), &w(0, ONE, 0), ONE), w(32768, 65536, 0));
    assert_eq!(reflect(&w(32768, -65536, 0), &w(0, ONE, 0), 0), w(32768, 0, 0));
    assert_eq!(reflect(&w(32768, -65536, 0), &w(0, 0, 0), ONE), w(32768, -65536, 0));
}

#[test]
fn body_sunk_into_the_table_is_lifted_and_bounces() {
    let mut body = Sphere::new(w(0, 13107, 0), 19661, ONE);
    body.lin_mom = w(32768, -65536, 0);
    let mut bodies = vec![body];
    let mut vels = vec![w(32768, -65536, 0)];
    let walls = vec![table()];
    let contacts = gather_contacts_ab(&bodies, &walls);
    assert_eq!(contacts, vec![Contact { a: 0, b: 0, mtv: w(0, 6554, 0) }]);
    restitute_dyn_stat(&mut bodies, &mut vels, &walls, &contacts, &Config::default());
    assert_eq!(bodies[0].c, w(0, 19661, 0));
    assert_eq!(bodies[0].lin_mom, w(32768, 58982, 0));
    assert_eq!(vels[0], w(32768, 58982, 0));
    assert_eq!(walls[0], table());
    let again = (bodies.clone(), vels.clone());
    restitute_dyn_stat(&mut bodies, &mut vels, &walls, &contacts, &Config::default());
    assert_eq!((bodies, vels), again);
}

#[test]
fn body_without_mass_is_lifted_and_keeps_its_momentum() {
    let mut body = Sphere::new(w(0, 13107, 0), 19661, 0);
    body.lin_mom = w(0, -65536, 0);
    let mut bodies = vec![body];
    let mut vels = vec![w(0, -65536, 0)];
    let contacts = vec![Contact { a: 0, b: 0, mtv: w(0, 6554, 0) }];
    restitute_dyn_stat(&mut bodies, &mut vels, &[table()], &contacts, &Config::default());
    assert_eq!(bodies[0].c, w(0, 19661, 0));
    assert_eq!(bodies[0].lin_mom, w(0, -65536, 0));
    assert_eq!(vels[0], w(0, 58982, 0));
}

#[test]
fn stale_contact_is_tested_again_and_skipped() {
    let mut bodies = vec![marble(0, 5 * ONE, 0)];
    let mut vels = vec![w(0, -ONE, 0)];
    let contacts = vec![Contact { a: 0, b: 0, mtv: w(0, ONE, 0) }];
    restitute_dyn_stat(&mut bodies, &mut vels, &[table()], &contacts, &Config::default());
    assert_eq!(bodies[0], marble(0, 5 * ONE, 0));
    assert_eq!(vels[0], w(0, -ONE, 0));
}

#[test]
fn elastic_pair_of_equal_masses_swaps_momenta() {
    let mut a = marble(0, 0, 0);
    a.lin_mom = w(ONE, 0, 0);
    let mut b = marble(3 * ONE / 2, 0, 0);
    b.lin_mom = w(-ONE, 0, 0);
    let (a2, va, b2, vb) = settle_pair(&a, &w(ONE, 0, 0), &b, &w(-ONE, 0, 0), &elastic());
    assert_eq!(a2.c, w(-16384, 0, 0));
    assert_eq!(b2.c, w(114688, 0, 0));
    assert_eq!(a2.lin_mom, w(-ONE, 0, 0));
    assert_eq!(b2.lin_mom, w(ONE, 0, 0));
    assert_eq!(va, w(-ONE, 0, 0));
    assert_eq!(vb, w(ONE, 0, 0));
    assert_eq!(a2.disp(&b2), None);
}

#[test]
fn exchange_keeps_the_sum_of_momenta() {
    let mut a = Sphere::new(w(0, 0, 0), ONE, 2 * ONE);
    a.lin_mom = w(ONE, ONE / 2, 0);
    let mut b = Sphere::new(w(ONE, ONE, ONE / 2), ONE, 3 * ONE);
    b.lin_mom = w(-ONE, 0, ONE / 4);
    let before = a.lin_mom.plus(&b.lin_mom);
    let (a2, va, b2, vb) =
        settle_pair(&a, &w(ONE, 0, 0), &b, &w(0, -ONE / 2, 0), &Config::default());
    assert_eq!(a2.lin_mom, w(-3636, -36404, -34586));
    assert_eq!(b2.lin_mom, w(3636, 69172, 50970));
    assert_eq!(a2.lin_mom.plus(&b2.lin_mom), before);
    assert_eq!(a2.c, w(-10923, -10923, -5461));
    assert_eq!(b2.c, w(76459, 76459, 38230));
    assert_eq!(va, w(15731, -49805, -24902));
    assert_eq!(vb, w(33203, 435, 16601));
    assert_eq!(a2.disp(&b2), None);
    assert_eq!(settle_pair(&a2, &va, &b2, &vb, &Config::default()), (a2, va, b2, vb));
}

#[test]
fn pair_without_usable_masses_is_only_moved_apart() {
    let mut a = Sphere::new(w(0, 0, 0), ONE, 0);
    a.lin_mom = w(ONE, 0, 0);
    let b = marble(3 * ONE / 2, 0, 0);
    let (a2, va, b2, vb) = settle_pair(&a, &w(ONE, 0, 0), &b, &w(0, 0, 0), &Config::default());
    assert_eq!(a2.c, w(-16384, 0, 0));
    assert_eq!(b2.c, w(114688, 0, 0));
    assert_eq!(a2.lin_mom, w(ONE, 0, 0));
    assert_eq!(b2.lin_mom, w(0, 0, 0));
    assert_eq!((va, vb), (w(ONE, 0, 0), w(0, 0, 0)));
    let mut c = marble(0, 0, 0);
    c.mass = -ONE;
    let (c2, _, b3, _) = settle_pair(&c, &w(ONE, 0, 0), &b, &w(0, 0, 0), &Config::default());
    assert_eq!(c2.lin_mom, c.lin_mom);
    assert_eq!(b3.lin_mom, b.lin_mom);
}

#[test]
fn pair_that_does_not_overlap_is_left_alone() {
    let a = marble(0, 0, 0);
    let b = marble(2 * ONE, 0, 0);
    assert_eq!(
        settle_pair(&a, &w(ONE, 0, 0), &b, &w(-ONE, 0, 0), &Config::default()),
        (a, w(ONE, 0, 0), b, w(-ONE, 0, 0))
    );
}

#[test]
fn two_groups_are_resolved_against_each_other() {
    let mut a = marble(0, 0, 0);
    a.lin_mom = w(ONE, 0, 0);
    let mut b = marble(3 * ONE / 2, 0, 0);
    b.lin_mom = w(-ONE, 0, 0);
    let mut ga = vec![a];
    let mut va = vec![w(ONE, 0, 0)];
    let mut gb = vec![marble(0, 9 * ONE, 0), b];
    let mut vb = vec![w(0, 0, 0), w(0, 0, 0)];
    let contacts = gather_contacts_ab(&ga, &gb);
    assert_eq!(contacts, vec![Contact { a: 0, b: 1, mtv: w(ONE / 2, 0, 0) }]);
    restitute_dyn_dyn(&mut ga, &mut va, &mut gb, &mut vb, &contacts, &Config::default());
    assert_eq!(ga[0].c, w(-16384, 0, 0));
    assert_eq!(gb[1].c, w(114688, 0, 0));
    assert_eq!(ga[0].lin_mom, w(-58982, 0, 0));
    assert_eq!(gb[1].lin_mom, w(58982, 0, 0));
    assert_eq!(va[0], w(3277, 0, 0));
    assert_eq!(vb[1], w(62259, 0, 0));
    assert_eq!(gb[0], marble(0, 9 * ONE, 0));
    assert_eq!(vb[0], w(0, 0, 0));
}

#[test]
fn later_contact_sees_what_an_earlier_one_moved() {
    let mut first = marble(0, 0, 0);
    first.lin_mom = w(ONE, 0, 0);
    let mut group = vec![first, marble(3 * ONE / 2, 0, 0), marble(3 * ONE, 0, 0)];
    let mut vels = vec![w(ONE, 0, 0), w(0, 0, 0), w(0, 0, 0)];
    let contacts = gather_contacts_aa(&group);
    assert_eq!(
        contacts,
        vec![
            Contact { a: 0, b: 1, mtv: w(ONE / 2, 0, 0) },
            Contact { a: 1, b: 2, mtv: w(ONE / 2, 0, 0) },
        ]
    );
    restitute_dyns(&mut group, &mut vels, &contacts, &Config::default());
    assert_eq!(group[0].c, w(-16384, 0, 0));
    // The second marble was pushed forward by the first contact, so the second contact
    // had three quarters of a unit to undo, not half.
    assert_eq!(group[1].c, w(90112, 0, 0));
    assert_eq!(group[2].c, w(221184, 0, 0));
    assert_eq!(group[0].lin_mom, w(3277, 0, 0));
    assert_eq!(group[1].lin_mom, w(3114, 0, 0));
    assert_eq!(group[2].lin_mom, w(59145, 0, 0));
    assert_eq!(vels, vec![w(3277, 0, 0), w(3114, 0, 0), w(59145, 0, 0)]);
    let total = group[0].lin_mom.plus(&group[1].lin_mom).plus(&group[2].lin_mom);
    assert_eq!(total, w(ONE, 0, 0));
}
